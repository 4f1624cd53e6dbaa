//! What the application does for a plugin: answers about its configuration, runs its
//! queries and passes its requests on.

use crate::plugin::statement::selects;
use crate::plugin::statement::statement_is_read_only;
use crate::plugin::statement::without_semicolons;
use crate::plugin::statement::wrap_select;
use crate::text::decimal;
use crate::text::decimal_text;
use crate::text::hex_digit;
use crate::text::same;
use crate::text::trimmed;
use vstd::hash_map::StringHashMap;
use vstd::prelude::*;
use vstd::utf8::decode_utf8;
use vstd::utf8::encode_scalar;
use vstd::utf8::encode_utf8;
use vstd::utf8::valid_utf8;

verus! {

/// The most bytes that a plugin is handed or hands over at once: a mebibyte.
pub const MAX_HOST_BYTES: usize = 1048576;

/// The most rows that a query of a plugin has.
pub const MAX_DB_ROWS: usize = 1000;

/// What `std::string::FromUtf8Error` says of bytes that are not UTF-8.
pub uninterp spec fn utf8_complaint(bytes: Seq<u8>) -> Seq<char>;

/// `String::from_utf8`: the text of bytes that are UTF-8, and for others what its error says.
#[verifier::external_body]
fn utf8_text(bytes: Vec<u8>) -> (text: Result<String, String>)
    ensures
        match text {
            Ok(text) => valid_utf8(bytes@) && text@ == decode_utf8(bytes@),
            Err(complaint) => !valid_utf8(bytes@) && complaint@ == utf8_complaint(bytes@),
        },
{
    String::from_utf8(bytes).map_err(|error| error.to_string())
}

/// A character of a JSON string: quotation marks, backslashes and control characters are
/// written as escapes.
pub open spec fn json_char(c: char) -> Seq<char> {
    let code = c as int;
    if c == '"' {
        seq!['\\', '"']
    } else if c == '\\' {
        seq!['\\', '\\']
    } else if code == 8 {
        seq!['\\', 'b']
    } else if code == 9 {
        seq!['\\', 't']
    } else if code == 10 {
        seq!['\\', 'n']
    } else if code == 12 {
        seq!['\\', 'f']
    } else if code == 13 {
        seq!['\\', 'r']
    } else if code < 32 {
        seq!['\\', 'u', '0', '0', hex_digit(code / 16), hex_digit(code % 16)]
    } else {
        seq![c]
    }
}

/// The characters of a JSON string.
pub open spec fn json_chars(text: Seq<char>) -> Seq<char>
    decreases text.len(),
{
    if text.len() == 0 {
        Seq::empty()
    } else {
        json_char(text.first()) + json_chars(text.drop_first())
    }
}

/// A text as a JSON string, with its quotation marks.
pub open spec fn json_string(text: Seq<char>) -> Seq<char> {
    seq!['"'] + json_chars(text) + seq!['"']
}

/// `serde_json::Value::to_string` on a string value: the text between quotation marks, with
/// short escapes for those that there are, `\u00` and two digits for other control characters,
/// and every other character as it is.
#[verifier::external_body]
pub(crate) fn to_json(text: &str) -> (json: String)
    ensures
        json@ == json_string(text@),
{
    serde_json::Value::String(text.to_owned()).to_string()
}

fn copy_bytes(bytes: &[u8]) -> (copy: Vec<u8>)
    ensures
        copy@ == bytes@,
{
    let mut copy: Vec<u8> = Vec::new();
    let mut i: usize = 0;
    while i < bytes.len()
        invariant
            i <= bytes.len(),
            copy@ == bytes@.take(i as int),
        decreases bytes.len() - i,
    {
        proof {
            assert(bytes@.take(i + 1) =~= bytes@.take(i as int).push(bytes@[i as int]));
        }
        copy.push(bytes[i]);
        i += 1;
    }
    proof {
        assert(bytes@.take(bytes.len() as int) =~= bytes@);
    }
    copy
}

/// The text of what a plugin hands over, where it is not too long and is UTF-8.
pub fn read_input(bytes: &[u8]) -> (text: Result<String, String>)
    ensures
        match text {
            Ok(text) => bytes@.len() <= 1048576 && valid_utf8(bytes@) && text@ == decode_utf8(
                bytes@,
            ),
            Err(message) => if bytes@.len() > 1048576 {
                message@ == "host request exceeds the size limit"@
            } else {
                !valid_utf8(bytes@) && message@ == utf8_complaint(bytes@)
            },
        },
{
    if bytes.len() > MAX_HOST_BYTES {
        return Err("host request exceeds the size limit".to_owned());
    }
    utf8_text(copy_bytes(bytes))
}

/// Refuses to hand a plugin a text that is too long.
pub fn check_output(text: &str) -> (checked: Result<(), &'static str>)
    ensures
        checked is Ok <==> encode_utf8(text@).len() <= 1048576,
        checked is Err ==> checked->Err_0@ == "host response exceeds the size limit"@,
{
    if text.as_bytes().len() > MAX_HOST_BYTES {
        Err("host response exceeds the size limit")
    } else {
        Ok(())
    }
}

/// The views of a result whose both sides are texts.
pub open spec fn texts(result: Result<String, String>) -> Result<Seq<char>, Seq<char>> {
    match result {
        Ok(text) => Ok(text@),
        Err(message) => Err(message@),
    }
}

/// The text of the body of a response: it is not too long and is UTF-8.
pub open spec fn body_text(body: Seq<u8>) -> Result<Seq<char>, Seq<char>> {
    if body.len() > 1048576 {
        Err("HTTP response exceeds the size limit"@)
    } else if !valid_utf8(body) {
        Err("HTTP response is not UTF-8: "@ + utf8_complaint(body))
    } else {
        Ok(decode_utf8(body))
    }
}

/// The text of the body of a response, of which at least one byte more than the limit was
/// read where there are that many.
pub fn read_http_body(body: &[u8]) -> (text: Result<String, String>)
    ensures
        texts(text) == body_text(body@),
{
    if body.len() > MAX_HOST_BYTES {
        return Err("HTTP response exceeds the size limit".to_owned());
    }
    match utf8_text(copy_bytes(body)) {
        Ok(text) => Ok(text),
        Err(complaint) => {
            let mut message = "HTTP response is not UTF-8: ".to_owned();
            message.append(complaint.as_str());
            Err(message)
        },
    }
}

/// The answer to a request that was passed on.
pub open spec fn response_text(status: u16, body: Seq<char>) -> Seq<char> {
    "{\"body\":"@ + json_string(body) + ",\"status\":"@ + decimal(status as nat) + "}"@
}

/// The answer to a request that was passed on: its status and its body.
pub fn http_response_json(status: u16, body: String) -> (json: String)
    ensures
        json@ == response_text(status, body@),
{
    let mut json = "{\"body\":".to_owned();
    json.append(to_json(body.as_str()).as_str());
    json.append(",\"status\":");
    json.append(decimal_text(status as u128).as_str());
    json.append("}");
    json
}

/// The answer to a request that failed.
pub open spec fn error_text(message: Seq<char>) -> Seq<char> {
    "{\"error\":"@ + json_string(message) + "}"@
}

/// The answer to a request that failed.
pub fn error_json(message: String) -> (json: String)
    ensures
        json@ == error_text(message@),
{
    let mut json = "{\"error\":".to_owned();
    json.append(to_json(message.as_str()).as_str());
    json.append("}");
    json
}

/// What became of a request that a plugin had passed on.
#[derive(Debug)]
pub enum HttpOutcome {
    /// What the plugin asked for could not be read.
    Invalid { complaint: String },
    /// There was no response.
    Failed { complaint: String },
    /// The body of the response could not be read.
    Unread { complaint: String },
    /// There was a response.
    Answered { status: u16, body: Vec<u8> },
}

/// The answer to a request that was passed on, or why there is none.
pub open spec fn http_answer(outcome: HttpOutcome) -> Result<Seq<char>, Seq<char>> {
    match outcome {
        HttpOutcome::Invalid { complaint } => Err("invalid request: "@ + complaint@),
        HttpOutcome::Failed { complaint } => Err("request failed: "@ + complaint@),
        HttpOutcome::Unread { complaint } => Err(
            "could not read HTTP response: "@ + complaint@,
        ),
        HttpOutcome::Answered { status, body } => match body_text(body@) {
            Ok(text) => Ok(response_text(status, text)),
            Err(message) => Err(message),
        },
    }
}

/// The answer to a request that was passed on, or why there is none. A response counts
/// whatever its status is.
pub fn http_result(outcome: HttpOutcome) -> (answer: Result<String, String>)
    ensures
        texts(answer) == http_answer(outcome),
{
    let (mut message, complaint) = match outcome {
        HttpOutcome::Invalid { complaint } => ("invalid request: ".to_owned(), complaint),
        HttpOutcome::Failed { complaint } => ("request failed: ".to_owned(), complaint),
        HttpOutcome::Unread { complaint } => (
            "could not read HTTP response: ".to_owned(),
            complaint,
        ),
        HttpOutcome::Answered { status, body } => {
            return match read_http_body(body.as_slice()) {
                Ok(text) => Ok(http_response_json(status, text)),
                Err(message) => Err(message),
            };
        },
    };
    message.append(complaint.as_str());
    Err(message)
}

/// What a plugin is answered: what it asked for, or that it failed.
pub fn answer(result: Result<String, String>) -> (json: String)
    ensures
        json@ == (match result {
            Ok(json) => json@,
            Err(message) => error_text(message@),
        }),
{
    match result {
        Ok(json) => json,
        Err(message) => error_json(message),
    }
}

/// The first character of a JSON string decides how it is written, and it can be told from
/// what follows.
proof fn chars_can_be_told(a: char, b: char, s: Seq<char>, t: Seq<char>)
    requires
        json_char(a) + s == json_char(b) + t,
    ensures
        a == b,
        s == t,
{
    let left = json_char(a) + s;
    let right = json_char(b) + t;
    assert(left[0] == json_char(a)[0]);
    assert(right[0] == json_char(b)[0]);
    if left[0] == '\\' {
        assert(left[1] == json_char(a)[1]);
        assert(right[1] == json_char(b)[1]);
        if left[1] == 'u' {
            assert(left[4] == json_char(a)[4]);
            assert(right[4] == json_char(b)[4]);
            assert(left[5] == json_char(a)[5]);
            assert(right[5] == json_char(b)[5]);
        }
    }
    assert(a == b);
    let n = json_char(a).len() as int;
    assert(s =~= left.subrange(n, left.len() as int));
    assert(t =~= right.subrange(n, right.len() as int));
}

proof fn texts_can_be_told(a: Seq<char>, b: Seq<char>)
    requires
        json_chars(a) == json_chars(b),
    ensures
        a == b,
    decreases a.len(),
{
    if a.len() == 0 {
        if b.len() > 0 {
            assert(json_chars(b).len() >= json_char(b.first()).len());
        }
        assert(a =~= b);
    } else {
        if b.len() == 0 {
            assert(json_chars(a).len() >= json_char(a.first()).len());
        }
        chars_can_be_told(
            a.first(),
            b.first(),
            json_chars(a.drop_first()),
            json_chars(b.drop_first()),
        );
        texts_can_be_told(a.drop_first(), b.drop_first());
        assert(a =~= seq![a.first()] + a.drop_first());
        assert(b =~= seq![b.first()] + b.drop_first());
    }
}

/// Different texts are different JSON strings.
pub proof fn json_strings_differ(a: Seq<char>, b: Seq<char>)
    requires
        json_string(a) == json_string(b),
    ensures
        a == b,
{
    let left = json_string(a);
    let right = json_string(b);
    assert(json_chars(a) =~= left.subrange(1, left.len() - 1));
    assert(json_chars(b) =~= right.subrange(1, right.len() - 1));
    texts_can_be_told(a, b);
}

/// A plugin that is told that its request failed can tell from the answer why.
pub proof fn errors_can_be_told(a: Seq<char>, b: Seq<char>)
    requires
        error_text(a) == error_text(b),
    ensures
        a == b,
{
    let head = "{\"error\":"@;
    let left = error_text(a);
    let right = error_text(b);
    assert(json_string(a) =~= left.subrange(head.len() as int, left.len() - "}"@.len()));
    assert(json_string(b) =~= right.subrange(head.len() as int, right.len() - "}"@.len()));
    json_strings_differ(a, b);
}

/// A plugin can tell a setting that is not set from one that is, whatever its value, and two
/// values from each other.
pub proof fn settings_can_be_told(config: Config, other: Config, key: Seq<char>)
    requires
        config.answer(Some(key)) == other.answer(Some(key)),
    ensures
        config.setting(key) == other.setting(key),
{
    reveal_strlit("null");
    assert("null"@[0] == 'n');
    match (config.setting(key), other.setting(key)) {
        (Some(a), Some(b)) => {
            json_strings_differ(a, b);
        },
        (Some(a), None) => {
            assert(json_string(a)[0] == '"');
        },
        (None, Some(b)) => {
            assert(json_string(b)[0] == '"');
        },
        _ => {},
    }
}

/// The configuration of a plugin.
pub struct Config {
    pub values: StringHashMap<String>,
}

impl Config {
    /// The text of a setting, where it is set.
    pub open spec fn setting(self, key: Seq<char>) -> Option<Seq<char>> {
        if self.values@.contains_key(key) {
            Some(self.values@[key]@)
        } else {
            None
        }
    }

    /// A configuration without settings.
    pub fn new() -> (config: Config)
        ensures
            forall|key: Seq<char>| #[trigger] config.setting(key) is None,
    {
        Config { values: StringHashMap::new() }
    }

    /// Sets a value.
    pub fn insert(&mut self, key: String, value: String)
        ensures
            forall|other: Seq<char>|
                #![trigger final(self).setting(other)]
                final(self).setting(other) == (if other == key@ {
                    Some(value@)
                } else {
                    old(self).setting(other)
                }),
    {
        self.values.insert(key, value);
    }

    /// The value of a setting, where it is set.
    pub fn get(&self, key: &str) -> (value: Option<String>)
        ensures
            match value {
                Some(value) => self.setting(key@) == Some(value@),
                None => self.setting(key@) is None,
            },
    {
        match self.values.get(key) {
            Some(value) => Some(value.clone()),
            None => None,
        }
    }

    /// Whether nothing is set.
    pub fn is_empty(&self) -> (empty: bool)
        ensures
            empty == self.values@.is_empty(),
    {
        self.values.is_empty()
    }

    /// The answer about a setting.
    pub open spec fn answer(self, key: Option<Seq<char>>) -> Seq<char> {
        match key {
            Some(key) => match self.setting(key) {
                Some(value) => json_string(value),
                None => "null"@,
            },
            None => "null"@,
        }
    }

    /// The answer to a plugin that asks for one of its settings: none where it is not set, or
    /// where what was asked could not be read.
    pub fn config_get(&self, key: Option<&str>) -> (json: String)
        ensures
            json@ == self.answer(
                match key {
                    Some(key) => Some(key@),
                    None => None,
                },
            ),
    {
        match key {
            Some(key) => match self.get(key) {
                Some(value) => to_json(value.as_str()),
                None => "null".to_owned(),
            },
            None => "null".to_owned(),
        }
    }
}

/// The query of a statement, or why it is not run. What decides comes in this order: whether
/// the request could be read, whether it is a single selection, whether there is a database
/// for plugins, and whether there is a runtime.
pub open spec fn planned(
    sql: Result<Seq<char>, Seq<char>>,
    database: bool,
    runtime: bool,
) -> Result<Seq<char>, Seq<char>> {
    match sql {
        Err(complaint) => Err("invalid request: "@ + complaint),
        Ok(sql) => if !selects(sql) {
            Err("only a single SELECT statement is permitted"@)
        } else if !database {
            Err(
                "plugin SQL is disabled: configure HORAE_PLUGIN_DATABASE_URL with a restricted login"@,
            )
        } else if !runtime {
            Err("no async runtime"@)
        } else {
            Ok(
                "SELECT CASE WHEN octet_length(row_to_json(_t)::text) <= 1048576 THEN row_to_json(_t)::text END FROM ("@
                    + without_semicolons(trimmed(sql)) + ") AS _t LIMIT 1001"@,
            )
        },
    }
}

/// The query to run for a request, or why none is run.
pub fn plan_query(sql: Result<&str, String>, database: bool, runtime: bool) -> (query: Result<
    String,
    String,
>)
    ensures
        ({
            let asked = match sql {
                Ok(sql) => Ok(sql@),
                Err(complaint) => Err(complaint@),
            };
            texts(query) == planned(asked, database, runtime)
        }),
{
    match sql {
        Err(complaint) => {
            let mut message = "invalid request: ".to_owned();
            message.append(complaint.as_str());
            Err(message)
        },
        Ok(sql) => {
            if !statement_is_read_only(sql) {
                return Err("only a single SELECT statement is permitted".to_owned());
            }
            if !database {
                return Err(
                    "plugin SQL is disabled: configure HORAE_PLUGIN_DATABASE_URL with a restricted login".to_owned(),
                );
            }
            if !runtime {
                return Err("no async runtime".to_owned());
            }
            Ok(wrap_select(sql))
        },
    }
}

/// Without a database of their own plugins run no query, whatever they ask.
pub proof fn no_database_no_query(sql: Result<Seq<char>, Seq<char>>, runtime: bool)
    ensures
        planned(sql, false, runtime) is Err,
{
}

/// Rows with commas between them.
pub open spec fn with_commas(rows: Seq<Seq<char>>) -> Seq<char>
    decreases rows.len(),
{
    if rows.len() == 0 {
        Seq::empty()
    } else if rows.len() == 1 {
        rows[0]
    } else {
        with_commas(rows.drop_last()) + seq![','] + rows.last()
    }
}

/// The rows of a query as they come in.
pub struct RowBuffer {
    pub output: String,
    pub count: usize,
    pub rows: Ghost<Seq<Seq<char>>>,
}

proof fn bytes_add_up(a: Seq<char>, b: Seq<char>)
    ensures
        encode_utf8(a + b).len() == encode_utf8(a).len() + encode_utf8(b).len(),
    decreases a.len(),
{
    if a.len() == 0 {
        assert(a + b =~= b);
    } else {
        let all = a + b;
        bytes_add_up(a.drop_first(), b);
        assert(all.drop_first() =~= a.drop_first() + b);
        assert(all.first() == a.first());
    }
}

proof fn one_byte_each()
    ensures
        encode_utf8(seq![',']).len() == 1,
        encode_utf8(seq!['[']).len() == 1,
        encode_utf8(seq![']']).len() == 1,
{
    reveal_with_fuel(encode_utf8, 2);
    let comma = seq![','];
    let open = seq!['['];
    let close = seq![']'];
    assert(comma.drop_first() =~= Seq::<char>::empty());
    assert(open.drop_first() =~= Seq::<char>::empty());
    assert(close.drop_first() =~= Seq::<char>::empty());
    assert(encode_utf8(Seq::<char>::empty()) =~= Seq::<u8>::empty());
    assert(encode_scalar(',' as u32).len() == 1);
    assert(encode_scalar('[' as u32).len() == 1);
    assert(encode_scalar(']' as u32).len() == 1);
}

impl RowBuffer {
    /// The rows that were taken are what stands after the opening bracket, and with the
    /// closing one they fit.
    pub open spec fn well_formed(self) -> bool {
        &&& self.rows@.len() == self.count
        &&& self.count <= 1000
        &&& self.output@ == seq!['['] + with_commas(self.rows@)
        &&& encode_utf8(self.output@).len() + 1 <= 1048576
    }

    /// The bytes that the rows have with one more, brackets and commas counted.
    pub open spec fn size_with(self, row: Seq<char>) -> int {
        encode_utf8(self.output@).len() + encode_utf8(row).len() + (if self.count > 0 {
            1int
        } else {
            0
        }) + 1
    }

    /// Why a row is not taken. A row that is none was too long.
    pub open spec fn refusal(self, row: Option<Seq<char>>) -> Option<Seq<char>> {
        if self.count == 1000 {
            Some("plugin query exceeds the row limit"@)
        } else {
            match row {
                None => Some("plugin query row exceeds the size limit"@),
                Some(row) => if self.size_with(row) > 1048576 {
                    Some("plugin query response exceeds the size limit"@)
                } else {
                    None
                },
            }
        }
    }

    /// A buffer without rows.
    pub fn new() -> (buffer: RowBuffer)
        ensures
            buffer.well_formed(),
            buffer.rows@.len() == 0,
    {
        let mut output = String::new();
        output.push('[');
        proof {
            one_byte_each();
            assert(seq!['['] + with_commas(Seq::<Seq<char>>::empty()) =~= seq!['[']);
            assert(output@ =~= seq!['[']);
        }
        RowBuffer { output, count: 0, rows: Ghost(Seq::empty()) }
    }

    /// Takes a row, or says why it is not taken; then nothing changes.
    pub fn push_row(&mut self, row: Option<&str>) -> (taken: Result<(), &'static str>)
        requires
            old(self).well_formed(),
        ensures
            final(self).well_formed(),
            ({
                let given = match row {
                    Some(row) => Some(row@),
                    None => None,
                };
                match old(self).refusal(given) {
                    Some(message) => taken is Err && taken->Err_0@ == message && *final(self)
                        == *old(self),
                    None => taken is Ok && final(self).rows@ == old(self).rows@.push(row->0@),
                }
            }),
    {
        if self.count == MAX_DB_ROWS {
            return Err("plugin query exceeds the row limit");
        }
        let row = match row {
            Some(row) => row,
            None => {
                return Err("plugin query row exceeds the size limit");
            },
        };
        let held: usize = self.output.as_str().as_bytes().len();
        let more: usize = row.as_bytes().len();
        let parting: usize = if self.count > 0 {
            2
        } else {
            1
        };
        if more > MAX_HOST_BYTES || held + more + parting > MAX_HOST_BYTES {
            return Err("plugin query response exceeds the size limit");
        }
        let ghost before = self.output@;
        let ghost rows = self.rows@;
        if self.count > 0 {
            self.output.push(',');
        }
        self.output.append(row);
        self.count = self.count + 1;
        self.rows = Ghost(rows.push(row@));
        proof {
            one_byte_each();
            let all = rows.push(row@);
            assert(all.drop_last() =~= rows);
            if rows.len() > 0 {
                assert(self.output@ =~= before + seq![','] + row@);
                bytes_add_up(before, seq![',']);
                bytes_add_up(before + seq![','], row@);
                assert(seq!['['] + with_commas(rows) + seq![','] + row@ =~= seq!['[']
                    + with_commas(all));
            } else {
                assert(self.output@ =~= before + row@);
                bytes_add_up(before, row@);
                assert(before =~= seq!['[']);
                assert(with_commas(all) == row@);
            }
        }
        Ok(())
    }

    /// The rows as a list.
    pub fn finish(self) -> (json: String)
        requires
            self.well_formed(),
        ensures
            json@ == seq!['['] + with_commas(self.rows@) + seq![']'],
            encode_utf8(json@).len() <= 1048576,
    {
        let ghost before = self.output@;
        let mut json = self.output;
        json.push(']');
        proof {
            one_byte_each();
            bytes_add_up(before, seq![']']);
            assert(json@ =~= before + seq![']']);
        }
        json
    }
}

/// What became of a query.
#[derive(Debug)]
pub enum QueryOutcome {
    /// It took too long.
    TimedOut,
    /// It failed, or its rows were not taken.
    Failed { complaint: String },
    /// It came to an end.
    Rows { json: String },
}

/// The rows of a query, or why there are none.
pub fn query_result(outcome: QueryOutcome) -> (rows: Result<String, String>)
    ensures
        texts(rows) == (match outcome {
            QueryOutcome::TimedOut => Err("database query timed out"@),
            QueryOutcome::Failed { complaint } => Err("query failed: "@ + complaint@),
            QueryOutcome::Rows { json } => Ok(json@),
        }),
{
    match outcome {
        QueryOutcome::TimedOut => Err("database query timed out".to_owned()),
        QueryOutcome::Failed { complaint } => {
            let mut message = "query failed: ".to_owned();
            message.append(complaint.as_str());
            Err(message)
        },
        QueryOutcome::Rows { json } => Ok(json),
    }
}

/// How important a message of a plugin is.
#[derive(Clone, Copy, PartialEq, Eq, Structural, Debug)]
pub enum LogLevel {
    Error,
    Warn,
    Info,
    Debug,
}

/// How important a message of a plugin is; what is not said or not known is information.
pub fn log_level(level: Option<&str>) -> (r: LogLevel)
    ensures
        r == (match level {
            Some(level) => if level@ == "error"@ {
                LogLevel::Error
            } else if level@ == "warn"@ {
                LogLevel::Warn
            } else if level@ == "debug"@ {
                LogLevel::Debug
            } else {
                LogLevel::Info
            },
            None => LogLevel::Info,
        }),
{
    match level {
        Some(level) => if same(level, "error") {
            LogLevel::Error
        } else if same(level, "warn") {
            LogLevel::Warn
        } else if same(level, "debug") {
            LogLevel::Debug
        } else {
            LogLevel::Info
        },
        None => LogLevel::Info,
    }
}

} // verus!
