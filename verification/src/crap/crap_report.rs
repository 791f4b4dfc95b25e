//! The report of `cargo crap4rust`: how many functions it measured, how
//! many reached the threshold, and each function's own figures. Fractional
//! figures are kept as the text the report wrote for them.
use vstd::prelude::*;
use crate::crap::json::Json;
use crate::text::{
    chars_of, string_of, push_str, push_all, push_decimal, decimal_spec, unsigned_value,
    parse_unsigned, split_spec, split_chars, views, all_digits, digits_value, digit_value,
    digits_only,
};

verus! {

/// One function as the report describes it.
#[derive(Debug)]
pub struct CrapFunction {
    pub name: String,
    pub relative_file: String,
    pub line: u64,
    pub complexity: u64,
    /// The share of the function covered by tests, between 0 and 1.
    pub coverage: String,
    pub crap_score: String,
    pub verdict: String,
}

/// The whole report.
#[derive(Debug)]
pub struct CrapReport {
    pub total_functions: u64,
    pub crappy_functions: u64,
    pub crappy_percent: String,
    pub functions: Vec<CrapFunction>,
}

/// The value of the first member of `members` named `key`, from the `i`-th
/// member on.
pub open spec fn member_from(members: Seq<(String, Json)>, key: Seq<char>, i: int) -> Option<Json>
    decreases members.len() - i,
{
    if i < 0 || i >= members.len() {
        None
    } else if members[i].0@ == key {
        Some(members[i].1)
    } else {
        member_from(members, key, i + 1)
    }
}

/// The value of the first member of `members` named `key`.
pub open spec fn member(members: Seq<(String, Json)>, key: Seq<char>) -> Option<Json> {
    member_from(members, key, 0)
}

/// The member `key` read as a string.
pub open spec fn text_member(members: Seq<(String, Json)>, key: Seq<char>) -> Option<Seq<char>> {
    match member(members, key) {
        Some(Json::Text(t)) => Some(t@),
        _ => None,
    }
}

/// The member `key` read as a number of any kind, as its text.
pub open spec fn number_member(members: Seq<(String, Json)>, key: Seq<char>) -> Option<Seq<char>> {
    match member(members, key) {
        Some(Json::Number(t)) => Some(t@),
        _ => None,
    }
}

/// The member `key` read as an unsigned 64-bit integer.
pub open spec fn unsigned_member(members: Seq<(String, Json)>, key: Seq<char>) -> Option<u64> {
    match member(members, key) {
        Some(Json::Number(t)) => unsigned_value(t@),
        _ => None,
    }
}

/// Whether `j` describes a function: an object with the string members
/// `name`, `relative_file` and `verdict`, the unsigned members `line` and
/// `complexity`, and the numbers `coverage` and `crap_score`.
pub open spec fn function_decodable(j: Json) -> bool {
    match j {
        Json::Object(ms) => {
            &&& text_member(ms@, seq!['n', 'a', 'm', 'e']) is Some
            &&& text_member(ms@, seq!['r', 'e', 'l', 'a', 't', 'i', 'v', 'e', '_', 'f', 'i', 'l', 'e']) is Some
            &&& unsigned_member(ms@, seq!['l', 'i', 'n', 'e']) is Some
            &&& unsigned_member(ms@, seq!['c', 'o', 'm', 'p', 'l', 'e', 'x', 'i', 't', 'y']) is Some
            &&& number_member(ms@, seq!['c', 'o', 'v', 'e', 'r', 'a', 'g', 'e']) is Some
            &&& number_member(ms@, seq!['c', 'r', 'a', 'p', '_', 's', 'c', 'o', 'r', 'e']) is Some
            &&& text_member(ms@, seq!['v', 'e', 'r', 'd', 'i', 'c', 't']) is Some
        },
        _ => false,
    }
}

/// Whether `f` is the function `j` describes.
pub open spec fn function_decodes(j: Json, f: CrapFunction) -> bool {
    match j {
        Json::Object(ms) => {
            &&& text_member(ms@, seq!['n', 'a', 'm', 'e']) == Some(f.name@)
            &&& text_member(ms@, seq!['r', 'e', 'l', 'a', 't', 'i', 'v', 'e', '_', 'f', 'i', 'l', 'e']) == Some(f.relative_file@)
            &&& unsigned_member(ms@, seq!['l', 'i', 'n', 'e']) == Some(f.line)
            &&& unsigned_member(ms@, seq!['c', 'o', 'm', 'p', 'l', 'e', 'x', 'i', 't', 'y']) == Some(f.complexity)
            &&& number_member(ms@, seq!['c', 'o', 'v', 'e', 'r', 'a', 'g', 'e']) == Some(f.coverage@)
            &&& number_member(ms@, seq!['c', 'r', 'a', 'p', '_', 's', 'c', 'o', 'r', 'e']) == Some(f.crap_score@)
            &&& text_member(ms@, seq!['v', 'e', 'r', 'd', 'i', 'c', 't']) == Some(f.verdict@)
        },
        _ => false,
    }
}

/// Whether `j` is a report: an object with the unsigned members
/// `total_functions` and `crappy_functions`, the number `crappy_percent`,
/// and an array `functions` of which each element describes a function.
/// Other members are left aside.
pub open spec fn report_decodable(j: Json) -> bool {
    match j {
        Json::Object(ms) => {
            &&& unsigned_member(ms@, seq!['t', 'o', 't', 'a', 'l', '_', 'f', 'u', 'n', 'c', 't', 'i', 'o', 'n', 's']) is Some
            &&& unsigned_member(ms@, seq!['c', 'r', 'a', 'p', 'p', 'y', '_', 'f', 'u', 'n', 'c', 't', 'i', 'o', 'n', 's']) is Some
            &&& number_member(ms@, seq!['c', 'r', 'a', 'p', 'p', 'y', '_', 'p', 'e', 'r', 'c', 'e', 'n', 't']) is Some
            &&& match member(ms@, seq!['f', 'u', 'n', 'c', 't', 'i', 'o', 'n', 's']) {
                Some(Json::Array(items)) => forall|i: int|
                    0 <= i < items@.len() ==> function_decodable(#[trigger] items@[i]),
                _ => false,
            }
        },
        _ => false,
    }
}

/// Whether `r` is the report `j` describes.
pub open spec fn report_decodes(j: Json, r: CrapReport) -> bool {
    match j {
        Json::Object(ms) => {
            &&& unsigned_member(ms@, seq!['t', 'o', 't', 'a', 'l', '_', 'f', 'u', 'n', 'c', 't', 'i', 'o', 'n', 's']) == Some(r.total_functions)
            &&& unsigned_member(ms@, seq!['c', 'r', 'a', 'p', 'p', 'y', '_', 'f', 'u', 'n', 'c', 't', 'i', 'o', 'n', 's']) == Some(r.crappy_functions)
            &&& number_member(ms@, seq!['c', 'r', 'a', 'p', 'p', 'y', '_', 'p', 'e', 'r', 'c', 'e', 'n', 't']) == Some(r.crappy_percent@)
            &&& match member(ms@, seq!['f', 'u', 'n', 'c', 't', 'i', 'o', 'n', 's']) {
                Some(Json::Array(items)) => {
                    &&& items@.len() == r.functions@.len()
                    &&& forall|i: int|
                        0 <= i < items@.len() ==> function_decodes(
                            #[trigger] items@[i],
                            r.functions@[i],
                        )
                },
                _ => false,
            }
        },
        _ => false,
    }
}

/// Whether the verdict of `f` is `Clean`.
pub open spec fn function_is_clean(f: CrapFunction) -> bool {
    f.verdict@ == seq!['C', 'l', 'e', 'a', 'n']
}

/// The functions of `fs` whose verdict is not `Clean`, in order.
pub open spec fn offenders_of(fs: Seq<CrapFunction>) -> Seq<CrapFunction>
    decreases fs.len(),
{
    if fs.len() == 0 {
        Seq::empty()
    } else if function_is_clean(fs.last()) {
        offenders_of(fs.drop_last())
    } else {
        offenders_of(fs.drop_last()).push(fs.last())
    }
}

/// The `k`-th digit after the decimal point of the fraction digits `frac`,
/// 0 past their end.
pub open spec fn fraction_digit(frac: Seq<char>, k: int) -> nat {
    if k < frac.len() {
        digit_value(frac[k])
    } else {
        0
    }
}

/// The whole part and fraction digits of a plain decimal `t` (`12` or
/// `12.5`), or `None` when `t` is written otherwise (a sign, an exponent).
pub open spec fn plain_decimal(t: Seq<char>) -> Option<(Seq<char>, Seq<char>)> {
    let pieces = split_spec(t, '.');
    if pieces.len() == 1 && all_digits(pieces[0]) {
        Some((pieces[0], Seq::<char>::empty()))
    } else if pieces.len() == 2 && all_digits(pieces[0]) && all_digits(pieces[1]) {
        Some((pieces[0], pieces[1]))
    } else {
        None
    }
}

/// The largest whole part a coverage is rendered as a percentage for.
pub open spec fn percent_whole_limit() -> nat {
    100_000_000_000_000_000
}

/// The fraction `t` as a whole percentage, rounded half up: `None` when `t`
/// is not a plain decimal, or too large to render.
pub open spec fn percent_of(t: Seq<char>) -> Option<nat> {
    match plain_decimal(t) {
        Some((whole, frac)) => if digits_value(whole) <= percent_whole_limit() {
            Some(
                digits_value(whole) * 100 + fraction_digit(frac, 0) * 10 + fraction_digit(frac, 1)
                    + if fraction_digit(frac, 2) >= 5 {
                    1nat
                } else {
                    0nat
                },
            )
        } else {
            None
        },
        None => None,
    }
}

/// How a coverage is shown: as a whole percentage where it is a plain
/// decimal, otherwise as the fraction the report wrote.
pub open spec fn coverage_text(t: Seq<char>) -> Seq<char> {
    match percent_of(t) {
        Some(p) => decimal_spec(p) + seq!['%'],
        None => t,
    }
}

/// One line naming a function: where it is, its figures and its verdict.
pub open spec fn describe_spec(f: CrapFunction) -> Seq<char> {
    f.relative_file@ + seq![':'] + decimal_spec(f.line as nat) + seq![' '] + f.name@
        + seq![' ', 'c', 'o', 'm', 'p', 'l', 'e', 'x', 'i', 't', 'y', ' '] + decimal_spec(f.complexity as nat) + seq![' ', 'c', 'o', 'v', 'e', 'r', 'a', 'g', 'e', ' ']
        + coverage_text(f.coverage@) + seq![' ', 'c', 'r', 'a', 'p', ' '] + f.crap_score@ + seq![' ', '['] + f.verdict@
        + seq![']']
}

/// The one-line summary of a report: how many functions reached the
/// threshold against how many were measured.
pub open spec fn summary_spec(r: CrapReport) -> Seq<char> {
    decimal_spec(r.crappy_functions as nat) + seq!['/'] + decimal_spec(r.total_functions as nat)
        + seq![' ', 'f', 'u', 'n', 'c', 't', 'i', 'o', 'n', 's', ' ', 'c', 'r', 'a', 'p', 'p', 'y', ' ', '('] + r.crappy_percent@ + seq!['%', ')']
}

/// A report with a function that cannot be read cannot be read.
proof fn lemma_undecodable_function(j: Json, ms: Vec<(String, Json)>, items: Vec<Json>, i: int)
    requires
        j == Json::Object(ms),
        member(ms@, seq!['f', 'u', 'n', 'c', 't', 'i', 'o', 'n', 's']) == Some(Json::Array(items)),
        0 <= i < items@.len(),
        !function_decodable(items@[i]),
    ensures
        !report_decodable(j),
{
    assert(!(forall|k: int| 0 <= k < items@.len() ==> function_decodable(#[trigger] items@[k])));
    let m = member(ms@, seq!['f', 'u', 'n', 'c', 't', 'i', 'o', 'n', 's']);
    assert(m matches Some(Json::Array(its)) && its == items);
    assert(!(match m {
        Some(Json::Array(its)) => forall|k: int|
            0 <= k < its@.len() ==> function_decodable(#[trigger] its@[k]),
        _ => false,
    }));
}

/// The value of the first member of `members` named `key`.
fn find_member<'a>(members: &'a Vec<(String, Json)>, key: &str) -> (r: Option<&'a Json>)
    ensures
        match r {
            Some(j) => member(members@, key@) == Some(*j),
            None => member(members@, key@) is None,
        },
{
    let k = chars_of(key);
    let mut i: usize = 0;
    while i < members.len()
        invariant
            i <= members.len(),
            k@ == key@,
            member(members@, key@) == member_from(members@, key@, i as int),
        decreases members.len() - i,
    {
        let name = chars_of(members[i].0.as_str());
        if crate::text::chars_equal(name.as_slice(), k.as_slice()) {
            return Some(&members[i].1);
        }
        i = i + 1;
    }
    None
}

/// The member `key` read as a string.
fn text_field(members: &Vec<(String, Json)>, key: &str) -> (r: Option<String>)
    ensures
        match r {
            Some(t) => text_member(members@, key@) == Some(t@),
            None => text_member(members@, key@) is None,
        },
{
    match find_member(members, key) {
        Some(Json::Text(t)) => Some(t.clone()),
        _ => None,
    }
}

/// The member `key` read as a number, as its text.
fn number_field(members: &Vec<(String, Json)>, key: &str) -> (r: Option<String>)
    ensures
        match r {
            Some(t) => number_member(members@, key@) == Some(t@),
            None => number_member(members@, key@) is None,
        },
{
    match find_member(members, key) {
        Some(Json::Number(t)) => Some(t.clone()),
        _ => None,
    }
}

/// The member `key` read as an unsigned 64-bit integer.
fn unsigned_field(members: &Vec<(String, Json)>, key: &str) -> (r: Option<u64>)
    ensures
        r == unsigned_member(members@, key@),
{
    match find_member(members, key) {
        Some(Json::Number(t)) => parse_unsigned(chars_of(t.as_str()).as_slice()),
        _ => None,
    }
}

/// The message for the member `key` missing or of the wrong kind.
pub open spec fn bad_member_message(key: Seq<char>) -> Seq<char> {
    "missing or invalid field `"@ + key + "`"@
}

/// The error of decoding `j` as a function: the message for the first of
/// its members, in the order `name`, `relative_file`, `line`, `complexity`,
/// `coverage`, `crap_score`, `verdict`, that is missing or of the wrong
/// kind; nothing when there is none.
pub open spec fn function_error(j: Json) -> Seq<char> {
    match j {
        Json::Object(ms) => if text_member(ms@, seq!['n', 'a', 'm', 'e']) is None {
            bad_member_message(seq!['n', 'a', 'm', 'e'])
        } else if text_member(ms@, seq!['r', 'e', 'l', 'a', 't', 'i', 'v', 'e', '_', 'f', 'i', 'l', 'e']) is None {
            bad_member_message(seq!['r', 'e', 'l', 'a', 't', 'i', 'v', 'e', '_', 'f', 'i', 'l', 'e'])
        } else if unsigned_member(ms@, seq!['l', 'i', 'n', 'e']) is None {
            bad_member_message(seq!['l', 'i', 'n', 'e'])
        } else if unsigned_member(ms@, seq!['c', 'o', 'm', 'p', 'l', 'e', 'x', 'i', 't', 'y']) is None {
            bad_member_message(seq!['c', 'o', 'm', 'p', 'l', 'e', 'x', 'i', 't', 'y'])
        } else if number_member(ms@, seq!['c', 'o', 'v', 'e', 'r', 'a', 'g', 'e']) is None {
            bad_member_message(seq!['c', 'o', 'v', 'e', 'r', 'a', 'g', 'e'])
        } else if number_member(ms@, seq!['c', 'r', 'a', 'p', '_', 's', 'c', 'o', 'r', 'e']) is None {
            bad_member_message(seq!['c', 'r', 'a', 'p', '_', 's', 'c', 'o', 'r', 'e'])
        } else if text_member(ms@, seq!['v', 'e', 'r', 'd', 'i', 'c', 't']) is None {
            bad_member_message(seq!['v', 'e', 'r', 'd', 'i', 'c', 't'])
        } else {
            Seq::empty()
        },
        _ => "a function is not an object"@,
    }
}

/// The error of the first element of `items`, from the `i`-th on, that does
/// not describe a function; nothing when each does.
pub open spec fn items_error(items: Seq<Json>, i: int) -> Seq<char>
    decreases items.len() - i,
{
    if i < 0 || i >= items.len() {
        Seq::empty()
    } else if function_decodable(items[i]) {
        items_error(items, i + 1)
    } else {
        function_error(items[i])
    }
}

/// The error of decoding `j` as a report: the message for the first of
/// `total_functions`, `crappy_functions`, `crappy_percent` and `functions`
/// that is missing or of the wrong kind, else the error of the first
/// function that cannot be read; nothing when `j` is a report.
pub open spec fn report_error(j: Json) -> Seq<char> {
    match j {
        Json::Object(ms) => if unsigned_member(ms@, seq!['t', 'o', 't', 'a', 'l', '_', 'f', 'u', 'n', 'c', 't', 'i', 'o', 'n', 's']) is None {
            bad_member_message(seq!['t', 'o', 't', 'a', 'l', '_', 'f', 'u', 'n', 'c', 't', 'i', 'o', 'n', 's'])
        } else if unsigned_member(ms@, seq!['c', 'r', 'a', 'p', 'p', 'y', '_', 'f', 'u', 'n', 'c', 't', 'i', 'o', 'n', 's']) is None {
            bad_member_message(seq!['c', 'r', 'a', 'p', 'p', 'y', '_', 'f', 'u', 'n', 'c', 't', 'i', 'o', 'n', 's'])
        } else if number_member(ms@, seq!['c', 'r', 'a', 'p', 'p', 'y', '_', 'p', 'e', 'r', 'c', 'e', 'n', 't']) is None {
            bad_member_message(seq!['c', 'r', 'a', 'p', 'p', 'y', '_', 'p', 'e', 'r', 'c', 'e', 'n', 't'])
        } else {
            match member(ms@, seq!['f', 'u', 'n', 'c', 't', 'i', 'o', 'n', 's']) {
                Some(Json::Array(items)) => items_error(items@, 0),
                _ => bad_member_message(seq!['f', 'u', 'n', 'c', 't', 'i', 'o', 'n', 's']),
            }
        },
        _ => "the report is not an object"@,
    }
}

/// The message for a member that is missing or of the wrong kind.
fn bad_member(key: &str) -> (r: String)
    ensures
        r@ == bad_member_message(key@),
{
    let mut out = chars_of("missing or invalid field `");
    push_str(&mut out, key);
    push_str(&mut out, "`");
    string_of(out.as_slice())
}

impl CrapFunction {
    /// The function `j` describes; an error naming the first member missing
    /// or of the wrong kind.
    pub fn decode(j: &Json) -> (r: Result<CrapFunction, String>)
        ensures
            r is Ok <==> function_decodable(*j),
            r matches Ok(f) ==> function_decodes(*j, f),
            r matches Err(e) ==> e@ == function_error(*j),
    {
        let ms = match j {
            Json::Object(ms) => ms,
            _ => return Err(string_of(chars_of("a function is not an object").as_slice())),
        };
        proof {
            reveal_strlit("name");
            reveal_strlit("relative_file");
            reveal_strlit("line");
            reveal_strlit("complexity");
            reveal_strlit("coverage");
            reveal_strlit("crap_score");
            reveal_strlit("verdict");
            assert("name"@ =~= seq!['n', 'a', 'm', 'e']);
            assert("relative_file"@ =~= seq!['r', 'e', 'l', 'a', 't', 'i', 'v', 'e', '_', 'f', 'i', 'l', 'e']);
            assert("line"@ =~= seq!['l', 'i', 'n', 'e']);
            assert("complexity"@ =~= seq!['c', 'o', 'm', 'p', 'l', 'e', 'x', 'i', 't', 'y']);
            assert("coverage"@ =~= seq!['c', 'o', 'v', 'e', 'r', 'a', 'g', 'e']);
            assert("crap_score"@ =~= seq!['c', 'r', 'a', 'p', '_', 's', 'c', 'o', 'r', 'e']);
            assert("verdict"@ =~= seq!['v', 'e', 'r', 'd', 'i', 'c', 't']);
        }
        let name = match text_field(ms, "name") {
            Some(v) => v,
            None => return Err(bad_member("name")),
        };
        let relative_file = match text_field(ms, "relative_file") {
            Some(v) => v,
            None => return Err(bad_member("relative_file")),
        };
        let line = match unsigned_field(ms, "line") {
            Some(v) => v,
            None => return Err(bad_member("line")),
        };
        let complexity = match unsigned_field(ms, "complexity") {
            Some(v) => v,
            None => return Err(bad_member("complexity")),
        };
        let coverage = match number_field(ms, "coverage") {
            Some(v) => v,
            None => return Err(bad_member("coverage")),
        };
        let crap_score = match number_field(ms, "crap_score") {
            Some(v) => v,
            None => return Err(bad_member("crap_score")),
        };
        let verdict = match text_field(ms, "verdict") {
            Some(v) => v,
            None => return Err(bad_member("verdict")),
        };
        Ok(CrapFunction { name, relative_file, line, complexity, coverage, crap_score, verdict })
    }

    /// Whether the verdict is `Clean`.
    pub fn is_clean(&self) -> (r: bool)
        ensures
            r == function_is_clean(*self),
    {
        proof {
            reveal_strlit("Clean");
            assert("Clean"@ =~= seq!['C', 'l', 'e', 'a', 'n']);
        }
        crate::text::string_is(&self.verdict, "Clean")
    }

    /// One line naming the function: file and line, name, complexity,
    /// coverage as a percentage, score, and verdict in brackets.
    pub fn describe(&self) -> (r: String)
        ensures
            r@ == describe_spec(*self),
    {
        let mut out = chars_of(self.relative_file.as_str());
        push_str(&mut out, ":");
        push_decimal(&mut out, self.line);
        push_str(&mut out, " ");
        push_str(&mut out, self.name.as_str());
        push_str(&mut out, " complexity ");
        push_decimal(&mut out, self.complexity);
        push_str(&mut out, " coverage ");
        let shown = coverage_shown(&self.coverage);
        push_all(&mut out, shown.as_slice());
        push_str(&mut out, " crap ");
        push_str(&mut out, self.crap_score.as_str());
        push_str(&mut out, " [");
        push_str(&mut out, self.verdict.as_str());
        push_str(&mut out, "]");
        proof {
            reveal_strlit(":");
            reveal_strlit(" ");
            reveal_strlit(" complexity ");
            reveal_strlit(" coverage ");
            reveal_strlit(" crap ");
            reveal_strlit(" [");
            reveal_strlit("]");
            assert(out@ =~= describe_spec(*self));
        }
        string_of(out.as_slice())
    }
}

/// The `k`-th fraction digit of `frac`, 0 past its end.
fn fraction_digit_of(frac: &Vec<char>, k: usize) -> (r: u64)
    requires
        all_digits(frac@) || frac@.len() == 0,
    ensures
        r == fraction_digit(frac@, k as int),
        r <= 9,
{
    if k < frac.len() {
        assert(crate::text::is_digit(frac@[k as int]));
        (frac[k] as u32 - '0' as u32) as u64
    } else {
        0
    }
}

/// How a coverage is shown: as a whole percentage where it is a plain
/// decimal, otherwise as written.
fn coverage_shown(t: &String) -> (r: Vec<char>)
    ensures
        r@ == coverage_text(t@),
{
    let cs = chars_of(t.as_str());
    let raw = chars_of(t.as_str());
    let pieces = split_chars(&cs, '.');
    proof {
        crate::text::lemma_split_nonempty(cs@, '.');
        assert(views(pieces@)[0] == pieces@[0]@);
    }
    if pieces.len() > 2 || !digits_only(pieces[0].as_slice()) {
        return raw;
    }
    let whole = match parse_unsigned(pieces[0].as_slice()) {
        Some(w) => w,
        None => return raw,
    };
    if whole > 100_000_000_000_000_000 {
        return raw;
    }
    let empty: Vec<char> = Vec::new();
    let frac: &Vec<char> = if pieces.len() == 2 {
        proof {
            assert(views(pieces@)[1] == pieces@[1]@);
        }
        if !digits_only(pieces[1].as_slice()) {
            return raw;
        }
        &pieces[1]
    } else {
        &empty
    };
    assert(plain_decimal(t@) == Some((pieces@[0]@, frac@)));
    let d0 = fraction_digit_of(frac, 0);
    let d1 = fraction_digit_of(frac, 1);
    let d2 = fraction_digit_of(frac, 2);
    let up: u64 = if d2 >= 5 {
        1
    } else {
        0
    };
    let percent = whole * 100 + d0 * 10 + d1 + up;
    let mut out: Vec<char> = Vec::new();
    push_decimal(&mut out, percent);
    out.push('%');
    out
}

impl CrapReport {
    /// The report `j` describes; an error naming the first member missing or
    /// of the wrong kind.
    pub fn decode(j: &Json) -> (r: Result<CrapReport, String>)
        ensures
            r is Ok <==> report_decodable(*j),
            r matches Ok(rep) ==> report_decodes(*j, rep),
            r matches Err(e) ==> e@ == report_error(*j),
    {
        let ms = match j {
            Json::Object(ms) => ms,
            _ => return Err(string_of(chars_of("the report is not an object").as_slice())),
        };
        proof {
            reveal_strlit("total_functions");
            reveal_strlit("crappy_functions");
            reveal_strlit("crappy_percent");
            reveal_strlit("functions");
            assert("total_functions"@ =~= seq!['t', 'o', 't', 'a', 'l', '_', 'f', 'u', 'n', 'c', 't', 'i', 'o', 'n', 's']);
            assert("crappy_functions"@ =~= seq!['c', 'r', 'a', 'p', 'p', 'y', '_', 'f', 'u', 'n', 'c', 't', 'i', 'o', 'n', 's']);
            assert("crappy_percent"@ =~= seq!['c', 'r', 'a', 'p', 'p', 'y', '_', 'p', 'e', 'r', 'c', 'e', 'n', 't']);
            assert("functions"@ =~= seq!['f', 'u', 'n', 'c', 't', 'i', 'o', 'n', 's']);
        }
        let total_functions = match unsigned_field(ms, "total_functions") {
            Some(v) => v,
            None => return Err(bad_member("total_functions")),
        };
        let crappy_functions = match unsigned_field(ms, "crappy_functions") {
            Some(v) => v,
            None => return Err(bad_member("crappy_functions")),
        };
        let crappy_percent = match number_field(ms, "crappy_percent") {
            Some(v) => v,
            None => return Err(bad_member("crappy_percent")),
        };
        let items = match find_member(ms, "functions") {
            Some(Json::Array(items)) => items,
            _ => return Err(bad_member("functions")),
        };
        let mut functions: Vec<CrapFunction> = Vec::new();
        let mut i: usize = 0;
        while i < items.len()
            invariant
                i <= items.len(),
                functions@.len() == i,
                *j == Json::Object(*ms),
                member(ms@, seq!['f', 'u', 'n', 'c', 't', 'i', 'o', 'n', 's']) == Some(Json::Array(*items)),
                unsigned_member(ms@, seq!['t', 'o', 't', 'a', 'l', '_', 'f', 'u', 'n', 'c', 't', 'i', 'o', 'n', 's']) == Some(total_functions),
                unsigned_member(ms@, seq!['c', 'r', 'a', 'p', 'p', 'y', '_', 'f', 'u', 'n', 'c', 't', 'i', 'o', 'n', 's']) == Some(crappy_functions),
                number_member(ms@, seq!['c', 'r', 'a', 'p', 'p', 'y', '_', 'p', 'e', 'r', 'c', 'e', 'n', 't']) == Some(crappy_percent@),
                forall|k: int| 0 <= k < i ==> function_decodable(#[trigger] items@[k]),
                forall|k: int| 0 <= k < i ==> function_decodes(#[trigger] items@[k], functions@[k]),
                report_error(*j) == items_error(items@, i as int),
            decreases items.len() - i,
        {
            match CrapFunction::decode(&items[i]) {
                Ok(f) => functions.push(f),
                Err(e) => {
                    proof {
                        lemma_undecodable_function(*j, *ms, *items, i as int);
                    }
                    return Err(e);
                },
            }
            i = i + 1;
        }
        Ok(CrapReport { total_functions, crappy_functions, crappy_percent, functions })
    }

    /// Whether no function reached the threshold.
    pub fn is_clean(&self) -> (r: bool)
        ensures
            r == (self.crappy_functions == 0),
    {
        self.crappy_functions == 0
    }

    /// The functions whose verdict is not `Clean`, in order.
    pub fn offenders(&self) -> (r: Vec<&CrapFunction>)
        ensures
            r@.len() == offenders_of(self.functions@).len(),
            forall|i: int| 0 <= i < r@.len() ==> *r@[i] == offenders_of(self.functions@)[i],
    {
        let mut r: Vec<&CrapFunction> = Vec::new();
        let mut i: usize = 0;
        while i < self.functions.len()
            invariant
                i <= self.functions.len(),
                r@.len() == offenders_of(self.functions@.take(i as int)).len(),
                forall|k: int|
                    0 <= k < r@.len() ==> *r@[k] == offenders_of(self.functions@.take(i as int))[k],
            decreases self.functions.len() - i,
        {
            proof {
                assert(self.functions@.take(i + 1).drop_last() =~= self.functions@.take(i as int));
            }
            let f = &self.functions[i];
            if !f.is_clean() {
                r.push(f);
            }
            i = i + 1;
        }
        assert(self.functions@.take(self.functions.len() as int) =~= self.functions@);
        r
    }

    /// How many functions reached the threshold against how many were
    /// measured, and the share it makes.
    pub fn summary(&self) -> (r: String)
        ensures
            r@ == summary_spec(*self),
    {
        let mut out: Vec<char> = Vec::new();
        push_decimal(&mut out, self.crappy_functions);
        push_str(&mut out, "/");
        push_decimal(&mut out, self.total_functions);
        push_str(&mut out, " functions crappy (");
        push_str(&mut out, self.crappy_percent.as_str());
        push_str(&mut out, "%)");
        proof {
            reveal_strlit("/");
            reveal_strlit(" functions crappy (");
            reveal_strlit("%)");
            assert(out@ =~= summary_spec(*self));
        }
        string_of(out.as_slice())
    }
}

} // verus!
