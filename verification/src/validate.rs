//! Protocol conformance of messages.
use vstd::prelude::*;

use crate::json;
use crate::message;
use crate::message::{AmpMessage, MessageView};
use crate::number;
use crate::text;

verus! {

/// Known AMP header fields.
pub open spec fn is_known_header(k: Seq<char>) -> bool {
    ||| k == "amp"@
    ||| k == "type"@
    ||| k == "id"@
    ||| k == "from"@
    ||| k == "to"@
    ||| k == "command"@
    ||| k == "args"@
    ||| k == "json"@
    ||| k == "reply-to"@
    ||| k == "ttl"@
    ||| k == "error"@
    ||| k == "timestamp"@
}

/// Valid message types.
pub open spec fn is_valid_type(t: Seq<char>) -> bool {
    ||| t == "request"@
    ||| t == "response"@
    ||| t == "event"@
    ||| t == "stream"@
}

/// A warning for each header whose key is not known, in order.
pub open spec fn unknown_header_warnings(hs: Seq<(Seq<char>, Seq<char>)>) -> Seq<Seq<char>>
    decreases hs.len(),
{
    if hs.len() == 0 {
        Seq::empty()
    } else {
        let before = unknown_header_warnings(hs.drop_last());
        if is_known_header(hs.last().0) {
            before
        } else {
            before.push("unknown header: "@ + hs.last().0)
        }
    }
}

/// `warning` if `wrong`, else nothing.
pub open spec fn warn_if(wrong: bool, warning: Seq<char>) -> Seq<Seq<char>> {
    if wrong {
        seq![warning]
    } else {
        Seq::empty()
    }
}

/// The warning about the `type` header.
pub open spec fn type_warning(m: MessageView) -> Seq<Seq<char>> {
    match message::header(m, "type"@) {
        Some(t) => warn_if(!is_valid_type(t), "invalid type: "@ + t),
        None => Seq::empty(),
    }
}

/// The warning about the `ttl` header.
pub open spec fn ttl_warning(m: MessageView) -> Seq<Seq<char>> {
    match message::header(m, "ttl"@) {
        Some(t) => warn_if(!number::is_u32_text(t), "ttl is not a valid integer: "@ + t),
        None => Seq::empty(),
    }
}

/// All warnings about a message, where `bad_args` and `bad_json` say that its `args` and its
/// `json` header are there and are not JSON. There is none about the empty message.
pub open spec fn warnings(m: MessageView, bad_args: bool, bad_json: bool) -> Seq<Seq<char>> {
    if m.headers.len() == 0 && m.body.len() == 0 {
        Seq::empty()
    } else {
        unknown_header_warnings(m.headers) + type_warning(m) + warn_if(
            bad_args,
            "args is not valid JSON"@,
        ) + warn_if(bad_json, "json payload is not valid JSON"@) + ttl_warning(m)
    }
}

/// The header `k` is there and is not JSON.
pub open spec fn is_bad_json(m: MessageView, k: Seq<char>) -> bool {
    match message::header(m, k) {
        Some(s) => json::json_value(s) is Err,
        None => false,
    }
}

/// Whether `key` is a known AMP header field.
pub fn known_header(key: &str) -> (r: bool)
    ensures
        r == is_known_header(key@),
{
    text::str_eq(key, "amp") || text::str_eq(key, "type") || text::str_eq(key, "id")
        || text::str_eq(key, "from") || text::str_eq(key, "to") || text::str_eq(key, "command")
        || text::str_eq(key, "args") || text::str_eq(key, "json") || text::str_eq(key, "reply-to")
        || text::str_eq(key, "ttl") || text::str_eq(key, "error") || text::str_eq(key, "timestamp")
}

/// Whether `t` is a valid message type.
pub fn valid_type(t: &str) -> (r: bool)
    ensures
        r == is_valid_type(t@),
{
    text::str_eq(t, "request") || text::str_eq(t, "response") || text::str_eq(t, "event")
        || text::str_eq(t, "stream")
}

/// The texts of a list of strings.
pub open spec fn texts(v: Seq<String>) -> Seq<Seq<char>> {
    v.map_values(|s: String| s@)
}

/// Adds a warning.
fn add_warning(out: &mut Vec<String>, warning: String)
    ensures
        texts(final(out)@) == texts(old(out)@).push(warning@),
{
    out.push(warning);
    assert(texts(out@) =~= texts(old(out)@).push(warning@));
}

/// The warnings about a message, given whether its `args` and its `json` header are there without
/// being JSON.
pub fn validate_with(msg: &AmpMessage, bad_args: bool, bad_json: bool) -> (r: Vec<String>)
    ensures
        texts(r@) == warnings(msg@, bad_args, bad_json),
{
    let mut out: Vec<String> = Vec::new();
    assert(texts(out@) =~= Seq::<Seq<char>>::empty());
    // Empty messages are always valid
    if msg.is_empty_message() {
        return out;
    }
    // Check for unknown headers

    let n: usize = msg.headers.len();
    let mut i: usize = 0;
    assert(msg@.headers.take(0) =~= Seq::<(Seq<char>, Seq<char>)>::empty());
    while i < n
        invariant
            i <= n,
            n == msg.headers.entries().len(),
            texts(out@) == unknown_header_warnings(msg@.headers.take(i as int)),
        decreases n - i,
    {
        let ghost hs = msg@.headers;
        assert(hs.take(i + 1).drop_last() =~= hs.take(i as int));
        assert(hs.take(i + 1).last() == hs[i as int]);
        let key: &String = msg.headers.key(i);
        if !known_header(key.as_str()) {
            add_warning(&mut out, text::concat("unknown header: ", key.as_str()));
        }
        i += 1;
    }
    assert(msg@.headers.take(n as int) =~= msg@.headers);
    let ghost w0 = texts(out@);
    // Validate type field
    if let Some(msg_type) = msg.get("type") {
        if !valid_type(msg_type) {
            add_warning(&mut out, text::concat("invalid type: ", msg_type));
        }
    }
    let ghost w1 = texts(out@);
    assert(w1 =~= w0 + type_warning(msg@));
    // Validate args is valid JSON
    if bad_args {
        add_warning(&mut out, "args is not valid JSON".to_owned());
    }
    let ghost w2 = texts(out@);
    assert(w2 =~= w1 + warn_if(bad_args, "args is not valid JSON"@));
    // Validate json payload is valid JSON
    if bad_json {
        add_warning(&mut out, "json payload is not valid JSON".to_owned());
    }
    let ghost w3 = texts(out@);
    assert(w3 =~= w2 + warn_if(bad_json, "json payload is not valid JSON"@));
    // Validate ttl is numeric
    if let Some(ttl) = msg.get("ttl") {
        if !number::spells_u32(ttl) {
            add_warning(&mut out, text::concat("ttl is not a valid integer: ", ttl));
        }
    }
    assert(texts(out@) =~= w3 + ttl_warning(msg@));
    out
}

/// Validate an AMP message for protocol conformance.
///
/// Returns a list of warnings (not errors - AMP is permissive).
/// An empty Vec means the message is fully conformant.
pub fn validate(msg: &AmpMessage) -> (r: Vec<String>)
    ensures
        texts(r@) == warnings(msg@, is_bad_json(msg@, "args"@), is_bad_json(msg@, "json"@)),
{
    let bad_args: bool = match msg.get("args") {
        Some(s) => json::read_json(s).is_err(),
        None => false,
    };
    let bad_json: bool = match msg.get("json") {
        Some(s) => json::read_json(s).is_err(),
        None => false,
    };
    validate_with(msg, bad_args, bad_json)
}

/// A message draws no warning exactly when it is empty, or each of its headers is known and its
/// type, arguments, payload and time to live are what they should be.
pub proof fn law_conformant(m: MessageView, bad_args: bool, bad_json: bool)
    ensures
        warnings(m, bad_args, bad_json).len() == 0 <==> {
            ||| m.headers.len() == 0 && m.body.len() == 0
            ||| {
                &&& forall|i: int| 0 <= i < m.headers.len() ==> is_known_header(#[trigger] m.headers[i].0)
                &&& message::header(m, "type"@) matches Some(t) ==> is_valid_type(t)
                &&& message::header(m, "ttl"@) matches Some(t) ==> number::is_u32_text(t)
                &&& !bad_args
                &&& !bad_json
            }
        },
{
    lemma_unknown_headers(m.headers);
}

/// No warning about headers means that each is known.
proof fn lemma_unknown_headers(hs: Seq<(Seq<char>, Seq<char>)>)
    ensures
        unknown_header_warnings(hs).len() == 0 <==> forall|i: int|
            0 <= i < hs.len() ==> is_known_header(#[trigger] hs[i].0),
    decreases hs.len(),
{
    if hs.len() > 0 {
        let init = hs.drop_last();
        lemma_unknown_headers(init);
        if unknown_header_warnings(hs).len() == 0 {
            assert forall|i: int| 0 <= i < hs.len() implies is_known_header(#[trigger] hs[i].0) by {
                if i < hs.len() - 1 {
                    assert(init[i] == hs[i]);
                }
            }
        }
        if forall|i: int| 0 <= i < hs.len() ==> is_known_header(#[trigger] hs[i].0) {
            assert forall|i: int| 0 <= i < init.len() implies is_known_header(#[trigger] init[i].0) by {
                assert(init[i] == hs[i]);
            }
            assert(is_known_header(hs[hs.len() - 1].0));
        }
    }
}

/// The known headers are these twelve, and the valid types these four.
pub proof fn law_known_words(s: Seq<char>)
    ensures
        is_known_header(s) <==> seq![
            "amp"@,
            "type"@,
            "id"@,
            "from"@,
            "to"@,
            "command"@,
            "args"@,
            "json"@,
            "reply-to"@,
            "ttl"@,
            "error"@,
            "timestamp"@,
        ].contains(s),
        is_valid_type(s) <==> seq!["request"@, "response"@, "event"@, "stream"@].contains(s),
{
    let known = seq![
        "amp"@,
        "type"@,
        "id"@,
        "from"@,
        "to"@,
        "command"@,
        "args"@,
        "json"@,
        "reply-to"@,
        "ttl"@,
        "error"@,
        "timestamp"@,
    ];
    assert(known[0] == "amp"@ && known[1] == "type"@ && known[2] == "id"@ && known[3] == "from"@
        && known[4] == "to"@ && known[5] == "command"@ && known[6] == "args"@ && known[7]
        == "json"@ && known[8] == "reply-to"@ && known[9] == "ttl"@ && known[10] == "error"@
        && known[11] == "timestamp"@);
    let types = seq!["request"@, "response"@, "event"@, "stream"@];
    assert(types[0] == "request"@ && types[1] == "response"@ && types[2] == "event"@ && types[3]
        == "stream"@);
}

/// Warnings about headers are given one by one, in order: what two lists of headers draw, one behind
/// the other, is what each draws alone, and a header draws one where it is not known.
pub proof fn law_header_warnings_add_up(
    a: Seq<(Seq<char>, Seq<char>)>,
    b: Seq<(Seq<char>, Seq<char>)>,
    k: Seq<char>,
    v: Seq<char>,
)
    ensures
        unknown_header_warnings(a + b) == unknown_header_warnings(a) + unknown_header_warnings(b),
        is_known_header(k) ==> unknown_header_warnings(seq![(k, v)]).len() == 0,
        !is_known_header(k) ==> unknown_header_warnings(seq![(k, v)]) == seq![
            "unknown header: "@ + k,
        ],
    decreases b.len(),
{
    let one = seq![(k, v)];
    assert(one.drop_last() =~= Seq::<(Seq<char>, Seq<char>)>::empty());
    assert(one.last() == (k, v));
    assert(unknown_header_warnings(one.drop_last()) =~= Seq::<Seq<char>>::empty());
    if !is_known_header(k) {
        assert(unknown_header_warnings(one) =~= seq!["unknown header: "@ + k]);
    }
    if b.len() == 0 {
        assert(a + b =~= a);
        assert(unknown_header_warnings(a) + unknown_header_warnings(b) =~= unknown_header_warnings(
            a,
        ));
    } else {
        law_header_warnings_add_up(a, b.drop_last(), k, v);
        assert((a + b).drop_last() =~= a + b.drop_last());
        assert((a + b).last() == b.last());
        assert(unknown_header_warnings(a + b) =~= unknown_header_warnings(a)
            + unknown_header_warnings(b));
    }
}

/// What is wrong with a message that is not empty is told: its unknown headers first, then an
/// invalid type, arguments and a payload that are not JSON, and a time to live that is no number,
/// each exactly where it is so.
pub proof fn law_warnings_tell_what_is_wrong(m: MessageView, bad_args: bool, bad_json: bool)
    requires
        m.headers.len() > 0 || m.body.len() > 0,
    ensures
        ({
            let all = warnings(m, bad_args, bad_json);
            let of_headers = unknown_header_warnings(m.headers);
            let bad_type = message::header(m, "type"@) matches Some(t) && !is_valid_type(t);
            let bad_ttl = message::header(m, "ttl"@) matches Some(t) && !number::is_u32_text(t);
            let n = of_headers.len();
            let i = n + if bad_type {
                1int
            } else {
                0
            };
            let j = i + if bad_args {
                1int
            } else {
                0
            };
            let l = j + if bad_json {
                1int
            } else {
                0
            };
            &&& of_headers.is_prefix_of(all)
            &&& all.len() == l + if bad_ttl {
                1int
            } else {
                0
            }
            &&& bad_type ==> all[n as int] == "invalid type: "@ + message::header(m, "type"@)->0
            &&& bad_args ==> all[i] == "args is not valid JSON"@
            &&& bad_json ==> all[j] == "json payload is not valid JSON"@
            &&& bad_ttl ==> all[l] == "ttl is not a valid integer: "@ + message::header(
                m,
                "ttl"@,
            )->0
        }),
{
}

/// A header is bad JSON exactly where it is there and no value is read from it.
pub proof fn law_bad_json(m: MessageView, k: Seq<char>)
    ensures
        is_bad_json(m, k) <==> (message::header(m, k) matches Some(s) && json::json_value(s)
            is Err),
{
}

/// The texts of warnings are those of the strings, one for one.
pub proof fn law_texts(v: Seq<String>, i: int)
    ensures
        texts(v).len() == v.len(),
        0 <= i < v.len() ==> texts(v)[i] == v[i]@,
{
}

} // verus!
