//! What plugins are promised and held to: what they are answered, which rows they get and which
//! events they follow.

use crate::lists::views;
use crate::plugin::database::outcome;
use crate::plugin::database::verdict;
use crate::plugin::database::Privilege;
use crate::plugin::database::Verdict;
use crate::plugin::host::body_text;
use crate::plugin::host::error_text;
use crate::plugin::host::http_answer;
use crate::plugin::host::json_char;
use crate::plugin::host::json_chars;
use crate::plugin::host::json_string;
use crate::plugin::host::planned;
use crate::plugin::host::with_commas;
use crate::plugin::host::Config;
use crate::plugin::host::HttpOutcome;
use crate::plugin::host::RowBuffer;
use crate::plugin::manifest::first_unknown;
use crate::plugin::manifest::hooks;
use crate::plugin::manifest::joined;
use crate::plugin::manifest::PluginManifest;
use crate::plugin::statement::selects;
use crate::plugin::statement::without_semicolons;
use crate::text::decimal;
use crate::text::hex_digit;
use crate::text::trimmed;
use vstd::prelude::*;
use vstd::utf8::decode_utf8;
use vstd::utf8::encode_utf8;
use vstd::utf8::valid_utf8;

verus! {

/// A connection is refused for the first unsafe thing that is found, in the order of the looks:
/// who it is, what it can reach, what it can run.
pub proof fn connections_are_refused_for_the_first_fault(
    identity: bool,
    relations: bool,
    functions: bool,
)
    ensures
        identity ==> outcome(identity, relations, functions) == (Verdict::Refuse {
            found: Privilege::Identity,
        }),
        !identity && relations ==> outcome(identity, relations, functions) == (Verdict::Refuse {
            found: Privilege::Relations,
        }),
        !identity && !relations && functions ==> outcome(identity, relations, functions) == (
        Verdict::Refuse { found: Privilege::Functions }),
        !identity && !relations && !functions ==> outcome(identity, relations, functions)
            == Verdict::Accept,
        forall|at: Privilege| #[trigger]
            verdict(at, true) == (Verdict::Refuse { found: at }),
{
}

/// A JSON string holds no character that would have to be escaped, and a text without such
/// characters stands in it as it is.
pub proof fn json_strings_are_escaped(text: Seq<char>)
    ensures
        forall|i: int| 0 <= i < json_chars(text).len() ==> (#[trigger] json_chars(text)[i]) as int
            >= 32,
        (forall|i: int|
            0 <= i < text.len() ==> (#[trigger] text[i]) as int >= 32 && text[i] != '"' && text[i]
                != '\\') ==> json_string(text) == seq!['"'] + text + seq!['"'],
    decreases text.len(),
{
    if text.len() > 0 {
        let (first, rest) = (text.first(), text.drop_first());
        json_strings_are_escaped(rest);
        let head = json_char(first);
        escapes_are_printed(first);
        assert forall|i: int| 0 <= i < json_chars(text).len() implies (#[trigger] json_chars(
            text,
        )[i]) as int >= 32 by {
            if i >= head.len() {
                assert(json_chars(rest)[i - head.len()] as int >= 32);
            } else {
                assert(head[i] as int >= 32);
            }
        }
        if forall|i: int|
            0 <= i < text.len() ==> (#[trigger] text[i]) as int >= 32 && text[i] != '"' && text[i]
                != '\\' {
            assert forall|i: int| 0 <= i < rest.len() implies (#[trigger] rest[i]) as int >= 32
                && rest[i] != '"' && rest[i] != '\\' by {
                assert(text[i + 1] as int >= 32);
            }
            let inner = json_chars(rest);
            assert(json_string(rest) == seq!['"'] + inner + seq!['"']);
            assert(json_string(rest).subrange(1, json_string(rest).len() - 1) =~= inner);
            assert((seq!['"'] + rest + seq!['"']).subrange(1, rest.len() as int + 1) =~= rest);
            assert(inner == rest);
            assert(text[0] == first && text[0] as int >= 32);
            assert(head == seq![first]);
            assert(json_chars(text) =~= text);
        }
    } else {
        assert(json_chars(text) =~= text);
    }
}

proof fn escapes_are_printed(c: char)
    ensures
        forall|i: int| 0 <= i < json_char(c).len() ==> (#[trigger] json_char(c)[i]) as int >= 32,
{
    let head = json_char(c);
    let code = c as int;
    assert(0 <= code);
    if code < 32 {
        let (high, low) = (code / 16, code % 16);
        assert(0 <= high < 2 && 0 <= low < 16);
        assert(hex_digit(high) as int == 48 + high);
        assert(hex_digit(low) as int >= 48);
    }
    assert forall|i: int| 0 <= i < head.len() implies (#[trigger] head[i]) as int >= 32 by {
        if head.len() == 1 {
            assert(i == 0);
        } else if head.len() == 2 {
            assert(i == 0 || i == 1);
        } else {
            assert(i == 0 || i == 1 || i == 2 || i == 3 || i == 4 || i == 5);
            assert(head[4] == hex_digit(code / 16) && head[5] == hex_digit(code % 16));
        }
    }
}

/// A body is read exactly where it has at most a mebibyte and is UTF-8, and then as its text.
pub proof fn bodies_are_read_whole(body: Seq<u8>)
    ensures
        body_text(body) is Ok <==> body.len() <= 1048576 && valid_utf8(body),
        body_text(body) is Ok ==> body_text(body)->Ok_0 == decode_utf8(body),
        body.len() > 1048576 ==> body_text(body) == Err::<Seq<char>, Seq<char>>(
            "HTTP response exceeds the size limit"@,
        ),
{
}

/// A response is passed on whatever its status is, with its body; what went wrong before there
/// was one is told.
pub proof fn responses_are_passed_on(status: u16, body: Vec<u8>, complaint: String)
    ensures
        body@.len() <= 1048576 && valid_utf8(body@) ==> http_answer(
            HttpOutcome::Answered { status, body },
        ) == Ok::<Seq<char>, Seq<char>>(
            "{\"body\":"@ + json_string(decode_utf8(body@)) + ",\"status\":"@ + decimal(
                status as nat,
            ) + "}"@,
        ),
        http_answer(HttpOutcome::Answered { status, body }) is Err ==> body@.len() > 1048576
            || !valid_utf8(body@),
        http_answer(HttpOutcome::Invalid { complaint }) == Err::<Seq<char>, Seq<char>>(
            "invalid request: "@ + complaint@,
        ),
        http_answer(HttpOutcome::Failed { complaint }) == Err::<Seq<char>, Seq<char>>(
            "request failed: "@ + complaint@,
        ),
        http_answer(HttpOutcome::Unread { complaint }) == Err::<Seq<char>, Seq<char>>(
            "could not read HTTP response: "@ + complaint@,
        ),
        error_text(complaint@) == "{\"error\":"@ + json_string(complaint@) + "}"@,
{
}

/// A setting that is set is answered by its value, and any other, or a question that could not
/// be read, by null.
pub proof fn settings_are_answered(config: Config, key: Seq<char>)
    ensures
        config.values@.contains_key(key) ==> config.answer(Some(key)) == json_string(
            config.values@[key]@,
        ),
        !config.values@.contains_key(key) ==> config.answer(Some(key)) == "null"@,
        config.answer(None) == "null"@,
{
}

/// A statement is run exactly where it could be read, is a single selection, and there is a
/// database for plugins and a runtime; then within a query that limits its rows.
pub proof fn only_selections_are_run(sql: Seq<char>, database: bool, runtime: bool, complaint: Seq<
    char,
>)
    ensures
        planned(Ok(sql), database, runtime) is Ok <==> selects(sql) && database && runtime,
        planned(Err(complaint), database, runtime) == Err::<Seq<char>, Seq<char>>(
            "invalid request: "@ + complaint,
        ),
        !selects(sql) ==> planned(Ok(sql), database, runtime) == Err::<Seq<char>, Seq<char>>(
            "only a single SELECT statement is permitted"@,
        ),
        planned(Ok(sql), true, true) is Ok ==> planned(Ok(sql), true, true)->Ok_0
            == "SELECT CASE WHEN octet_length(row_to_json(_t)::text) <= 1048576 THEN row_to_json(_t)::text END FROM ("@
            + without_semicolons(trimmed(sql)) + ") AS _t LIMIT 1001"@,
{
}

/// A statement is wrapped without the semicolons at its end, and without losing anything else.
pub proof fn only_semicolons_are_dropped(s: Seq<char>) -> (n: nat)
    ensures
        without_semicolons(s).len() > 0 ==> without_semicolons(s).last() != ';',
        s == without_semicolons(s) + Seq::new(n, |i: int| ';'),
    decreases s.len(),
{
    if s.len() > 0 && s.last() == ';' {
        let m = only_semicolons_are_dropped(s.drop_last());
        assert(s =~= without_semicolons(s) + Seq::new(m + 1, |i: int| ';')) by {
            assert(s =~= s.drop_last().push(';'));
        }
        m + 1
    } else {
        assert(s =~= without_semicolons(s) + Seq::new(0, |i: int| ';'));
        0
    }
}

/// Rows stand with one comma between any two of them.
pub proof fn rows_are_parted_by_commas(rows: Seq<Seq<char>>, row: Seq<char>)
    ensures
        with_commas(Seq::empty()) == Seq::<char>::empty(),
        with_commas(seq![row]) == row,
        rows.len() > 0 ==> with_commas(rows.push(row)) == with_commas(rows) + seq![','] + row,
{
    assert(rows.push(row).drop_last() =~= rows);
}

/// Texts stand with the parting between any two of them.
pub proof fn texts_are_parted(texts: Seq<Seq<char>>, parting: Seq<char>, text: Seq<char>)
    ensures
        joined(Seq::empty(), parting) == Seq::<char>::empty(),
        joined(seq![text], parting) == text,
        texts.len() > 0 ==> joined(texts.push(text), parting) == joined(texts, parting) + parting
            + text,
{
    assert(texts.push(text).drop_last() =~= texts);
}

/// A row is taken exactly where there are fewer than a thousand before it, it is not too long
/// itself, and the rows with it have at most a mebibyte, brackets and commas counted.
pub proof fn rows_are_taken_while_they_fit(buffer: RowBuffer, row: Seq<char>)
    requires
        buffer.well_formed(),
    ensures
        buffer.refusal(None) is Some,
        buffer.count == 1000 ==> buffer.refusal(Some(row)) is Some,
        buffer.count < 1000 ==> (buffer.refusal(Some(row)) is None <==> encode_utf8(
            buffer.output@,
        ).len() + encode_utf8(row).len() + (if buffer.count > 0 {
            2int
        } else {
            1
        }) <= 1048576),
        buffer.rows@.len() == buffer.count,
        buffer.count <= 1000,
        buffer.output@ == seq!['['] + with_commas(buffer.rows@),
{
}

/// A plugin that is taken follows at least one event, and only events that there are; one that
/// is refused is refused for the first event that there is not.
pub proof fn plugins_follow_known_events(
    manifest: PluginManifest,
    declared: Seq<Seq<char>>,
    i: int,
    k: int,
)
    ensures
        manifest.well_formed() ==> manifest.hooks.len() > 0,
        manifest.well_formed() && 0 <= i < manifest.hooks.len() ==> hooks().contains(
            manifest.hooks@[i]@,
        ),
        first_unknown(declared, i) ==> 0 <= i < declared.len() && !hooks().contains(declared[i]),
        first_unknown(declared, i) && 0 <= k < i ==> hooks().contains(declared[k]),
{
    if manifest.well_formed() && 0 <= i < manifest.hooks.len() {
        assert(hooks().contains(views(manifest.hooks@)[i]));
    }
}

} // verus!
