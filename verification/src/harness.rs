//! A harness that lets a browser reach the selective forwarding unit of a node.
//!
//! It hands the browser's offers to the daemon, and keeps the answers until the browser asks for
//! them.
use vstd::prelude::*;

use crate::address;
use crate::address::AddressView;
use crate::bridge;
use crate::bridge::{ActionView, Reply, ReplyView};
use crate::json;
use crate::message;
use crate::message::{AmpMessage, MessageView};
use crate::peer::PeerView;
use crate::relay::PacketView;
use crate::roundtrip;
use crate::sfu::CommandView;
use crate::strmap;
use crate::strmap::StrMap;
use crate::text;

verus! {

/// The node whose SFU is reached.
pub const NODE_NAME: &'static str = "cachyos";

/// Where the daemon of the node is reached.
pub const MESHD_SOCKET: &'static str = "/tmp/meshd.sock";

/// Where handing a message to the daemon failed, in the words of what failed.
#[derive(Debug)]
pub enum MeshdError {
    Connect(String),
    Handshake(String),
    Build(String),
    Send(String),
    Read(String),
}

/// Why a message was not handed to the daemon.
pub open spec fn meshd_error_text(e: MeshdError) -> Seq<char> {
    match e {
        MeshdError::Connect(s) => "connect to "@ + MESHD_SOCKET@ + ": "@ + s@,
        MeshdError::Handshake(s) => "handshake: "@ + s@,
        MeshdError::Build(s) => "build request: "@ + s@,
        MeshdError::Send(s) => "send request: "@ + s@,
        MeshdError::Read(s) => "read body: "@ + s@,
    }
}

impl MeshdError {
    /// Why a message was not handed to the daemon.
    pub fn message(&self) -> (r: String)
        ensures
            r@ == meshd_error_text(*self),
    {
        match self {
            MeshdError::Connect(s) => {
                let mut r: String = "connect to ".to_owned();
                r.append(MESHD_SOCKET);
                r.append(": ");
                r.append(s.as_str());
                r
            },
            MeshdError::Handshake(s) => text::concat("handshake: ", s.as_str()),
            MeshdError::Build(s) => text::concat("build request: ", s.as_str()),
            MeshdError::Send(s) => text::concat("send request: ", s.as_str()),
            MeshdError::Read(s) => text::concat("read body: ", s.as_str()),
        }
    }
}

/// What the daemon answered: the body, and the status in words behind it.
pub fn meshd_answer(body: &str, status: &str) -> (r: String)
    ensures
        r@ == body@ + " ("@ + status@ + ")"@,
{
    let mut r: String = body.to_owned();
    r.append(" (");
    r.append(status);
    r.append(")");
    r
}

/// The answers to the offers that were handed on: empty while there is none yet.
#[derive(Debug)]
pub struct PendingAnswers {
    pub slots: StrMap<String>,
}

impl View for PendingAnswers {
    type V = Map<Seq<char>, Seq<char>>;

    open spec fn view(&self) -> Map<Seq<char>, Seq<char>> {
        self.slots@.map_values(|s: String| s@)
    }
}

/// An answer in a few words.
pub open spec fn short_reply(status: u16, body: Seq<char>) -> ReplyView {
    ReplyView { status, mesh_id: None, body }
}

/// An answer in a few words.
fn say(status: u16, body: String) -> (r: Reply)
    ensures
        r@ == short_reply(status, body@),
{
    Reply { status, mesh_id: None, body }
}

/// What is wrong with what a browser sent, where `kind` is the text of its member `type` or what is
/// wrong with its JSON text.
pub open spec fn offer_fault(kind: Result<Option<Seq<char>>, Seq<char>>) -> Option<ReplyView> {
    match kind {
        Err(e) => Some(short_reply(400, "invalid JSON: "@ + e)),
        Ok(kind) => if kind == Some("offer"@) {
            None
        } else {
            Some(short_reply(400, "expected type: offer"@))
        },
    }
}

/// The text of the member `type` of what a text spells in JSON, or what is wrong with the text.
pub open spec fn kind_in(body: Seq<char>) -> Result<Option<Seq<char>>, Seq<char>> {
    match json::json_value(body) {
        Ok(value) => Ok(
            match json::member(value, "type"@) {
                Some(kind) => json::string_in(kind),
                None => None,
            },
        ),
        Err(e) => Err(e),
    }
}

/// The message that hands an offer on.
pub open spec fn offer_message(request_id: Seq<char>, body: Seq<char>) -> MessageView {
    MessageView {
        headers: seq![
            ("amp"@, "1"@),
            ("type"@, "request"@),
            ("command"@, "sdp-offer"@),
            ("from"@, "browser.cachyos.amp"@),
            ("to"@, "sfu.cachyos.amp"@),
            ("id"@, request_id),
        ],
        body: body.push('\n'),
    }
}

/// What is done about an offer of a browser.
#[derive(Debug)]
pub enum OfferAction {
    /// Answer at once.
    Answer(Reply),
    /// Hand a message to the daemon.
    Forward { request_id: String, wire: String },
}

/// What is wrong with what a browser sent.
pub fn judge_offer(kind: Result<Option<String>, String>) -> (r: Option<Reply>)
    ensures
        (match r {
            Some(reply) => Some(reply@),
            None => None,
        }) == offer_fault(
            match kind {
                Ok(kind) => Ok(text::text_option(kind)),
                Err(e) => Err(e@),
            },
        ),
{
    match kind {
        Err(e) => Some(say(400, text::concat("invalid JSON: ", e.as_str()))),
        Ok(kind) => {
            let offers: bool = match &kind {
                Some(k) => text::str_eq(k.as_str(), "offer"),
                None => false,
            };
            if offers {
                None
            } else {
                Some(say(400, "expected type: offer".to_owned()))
            }
        },
    }
}

/// The text of the member `type` of what a text spells in JSON, or what is wrong with the text.
fn read_kind(body: &str) -> (r: Result<Option<String>, String>)
    ensures
        (match r {
            Ok(kind) => Ok(text::text_option(kind)),
            Err(e) => Err(e@),
        }) == kind_in(body@),
{
    match json::read_json(body) {
        Ok(value) => Ok(
            match json::read_member(&value, "type") {
                Some(kind) => match kind.as_str() {
                    Some(s) => Some(s.to_owned()),
                    None => None,
                },
                None => None,
            },
        ),
        Err(e) => Err(e),
    }
}

/// The keys of an offer are told apart.
proof fn lemma_offer_keys(request_id: Seq<char>, body: Seq<char>)
    ensures
        strmap::distinct_keys(offer_message(request_id, body).headers),
{
    reveal_strlit("amp");
    reveal_strlit("type");
    reveal_strlit("command");
    reveal_strlit("from");
    reveal_strlit("to");
    reveal_strlit("id");
    assert("amp"@.len() == 3 && "command"@.len() == 7);
    assert("type"@.len() == 4 && "from"@.len() == 4);
    assert("to"@.len() == 2 && "id"@.len() == 2);
    assert("type"@[0] == 't' && "from"@[0] == 'f' && "to"@[0] == 't' && "id"@[0] == 'i');
}

/// The message that hands an offer on, as it is written.
fn write_offer(request_id: &str, body: &str) -> (r: String)
    ensures
        r@ == message::wire(offer_message(request_id@, body@)),
{
    let pairs: Vec<(&'static str, String)> = vec![
        ("amp", "1".to_owned()),
        ("type", "request".to_owned()),
        ("command", "sdp-offer".to_owned()),
        ("from", "browser.cachyos.amp".to_owned()),
        ("to", "sfu.cachyos.amp".to_owned()),
        ("id", request_id.to_owned()),
    ];
    proof {
        let ps = pairs@.map_values(|p: (&'static str, String)| (p.0@, p.1@));
        assert(ps =~= offer_message(request_id@, body@).headers);
        lemma_offer_keys(request_id@, body@);
        message::lemma_collect_distinct(ps);
    }
    let headers: StrMap<String> = AmpMessage::command(pairs).headers;
    let mut text: String = body.to_owned();
    text.push('\n');
    AmpMessage { headers, body: text }.to_wire()
}

/// The slots once an offer under `request_id` is handed on.
pub open spec fn with_slot(slots: Map<Seq<char>, Seq<char>>, request_id: Seq<char>) -> Map<
    Seq<char>,
    Seq<char>,
> {
    slots.insert(request_id, Seq::empty())
}

/// What a browser that asks for an answer is told.
pub open spec fn poll_reply(slots: Map<Seq<char>, Seq<char>>, id: Seq<char>) -> ReplyView {
    if !slots.contains_key(id) {
        short_reply(404, "unknown request_id"@)
    } else if slots[id].len() == 0 {
        short_reply(202, "pending"@)
    } else {
        short_reply(200, slots[id])
    }
}

/// The slots once a browser has asked for an answer: one that it was given is gone.
pub open spec fn after_poll(slots: Map<Seq<char>, Seq<char>>, id: Seq<char>) -> Map<
    Seq<char>,
    Seq<char>,
> {
    if slots.contains_key(id) && slots[id].len() > 0 {
        slots.remove(id)
    } else {
        slots
    }
}

/// The request that a message answers.
pub open spec fn answered_request(m: MessageView) -> Option<Seq<char>> {
    if message::header(m, "command"@) == Some("sdp-answer"@) {
        message::header(m, "reply-to"@)
    } else {
        None
    }
}

/// The status that the daemon is told for what it posts.
pub open spec fn callback_status(body: Seq<char>) -> u16 {
    match message::parse_message(body) {
        None => 400,
        Some(m) => if message::header(m, "command"@) != Some("sdp-answer"@) {
            200
        } else if message::header(m, "reply-to"@) is None {
            400
        } else {
            200
        },
    }
}

/// The slots once the daemon has posted something: an answer to a request with a slot fills it.
pub open spec fn after_callback(slots: Map<Seq<char>, Seq<char>>, body: Seq<char>) -> Map<
    Seq<char>,
    Seq<char>,
> {
    match message::parse_message(body) {
        None => slots,
        Some(m) => match answered_request(m) {
            Some(id) => if slots.contains_key(id) {
                slots.insert(id, text::trim(m.body))
            } else {
                slots
            },
            None => slots,
        },
    }
}

impl PendingAnswers {
    /// No offer was handed on yet.
    pub fn new() -> (r: PendingAnswers)
        ensures
            r@ == Map::<Seq<char>, Seq<char>>::empty(),
    {
        let r: PendingAnswers = PendingAnswers { slots: StrMap::new() };
        assert(r@ =~= Map::<Seq<char>, Seq<char>>::empty());
        r
    }

    /// Fills the slot of `id`.
    fn fill(&mut self, id: String, answer: String)
        ensures
            final(self)@ == old(self)@.insert(id@, answer@),
    {
        self.slots.insert(id, answer);
        assert(self@ =~= old(self)@.insert(id@, answer@));
    }

    /// Removes the slot of `id`.
    fn clear(&mut self, id: &str)
        ensures
            final(self)@ == old(self)@.remove(id@),
    {
        self.slots.remove(id);
        assert(self@ =~= old(self)@.remove(id@));
    }

    /// A browser sends an SDP offer. It is handed to the daemon under `request_id`, and a slot is
    /// kept for the answer.
    pub fn signal_offer(&mut self, body: &str, request_id: String) -> (r: OfferAction)
        ensures
            match offer_fault(kind_in(body@)) {
                Some(reply) => (r matches OfferAction::Answer(given) && given@ == reply)
                    && final(self)@ == old(self)@,
                None => (r matches OfferAction::Forward { request_id: id, wire } && id@
                    == request_id@ && wire@ == message::wire(
                    offer_message(request_id@, body@),
                )) && final(self)@ == with_slot(old(self)@, request_id@),
            },
    {
        match judge_offer(read_kind(body)) {
            Some(reply) => OfferAction::Answer(reply),
            None => {
                let empty: String = String::new();
                assert(empty@ =~= Seq::<char>::empty());
                self.fill(request_id.clone(), empty);
                let wire: String = write_offer(request_id.as_str(), body);
                OfferAction::Forward { request_id, wire }
            },
        }
    }

    /// The daemon has taken an offer, or not: then no answer is waited for. Gives the request that
    /// the browser is told, or what else it is told.
    pub fn forwarded(&mut self, request_id: String, outcome: Result<String, String>) -> (r: Result<
        String,
        Reply,
    >)
        ensures
            match outcome {
                Ok(_) => (r matches Ok(id) && id@ == request_id@) && final(self)@ == old(self)@,
                Err(e) => (r matches Err(reply) && reply@ == short_reply(
                    502,
                    "meshd error: "@ + e@,
                )) && final(self)@ == old(self)@.remove(request_id@),
            },
    {
        match outcome {
            Ok(_) => Ok(request_id),
            Err(e) => {
                self.clear(request_id.as_str());
                Err(say(502, text::concat("meshd error: ", e.as_str())))
            },
        }
    }

    /// A browser asks for an answer.
    ///
    /// It is told 202 if pending, 200 with the answer if ready. An answer is given once.
    pub fn signal_poll(&mut self, id: &str) -> (r: Reply)
        ensures
            r@ == poll_reply(old(self)@, id@),
            final(self)@ == after_poll(old(self)@, id@),
    {
        let answer: String = match self.slots.get(id) {
            None => {
                return say(404, "unknown request_id".to_owned());
            },
            Some(answer) => answer.clone(),
        };
        assert(self@.contains_key(id@) && self@[id@] == answer@);
        if answer.as_str().is_empty() {
            return say(202, "pending".to_owned());
        }
        self.clear(id);
        say(200, answer)
    }

    /// The daemon posts a message. Gives the status that it is told.
    pub fn mesh_callback(&mut self, body: &str) -> (r: u16)
        ensures
            r == callback_status(body@),
            final(self)@ == after_callback(old(self)@, body@),
    {
        let msg: AmpMessage = match AmpMessage::parse(body) {
            Some(m) => m,
            None => {
                return 400;
            },
        };
        let answers: bool = match msg.command_name() {
            Some(name) => text::str_eq(name, "sdp-answer"),
            None => false,
        };
        if !answers {
            return 200;
        }
        let id: &str = match msg.get("reply-to") {
            Some(id) => id,
            None => {
                return 400;
            },
        };
        if self.slots.contains_key(id) {
            assert(self@.contains_key(id@));
            self.fill(id.to_owned(), text::trimmed(msg.body.as_str()));
        }
        200
    }
}

/// A browser that keeps asking is told to wait until the answer is there, is then given the answer
/// without white space around it, and is given it once.
pub proof fn law_answer_is_given_once(
    slots: Map<Seq<char>, Seq<char>>,
    id: Seq<char>,
    callback: Seq<char>,
)
    requires
        match message::parse_message(callback) {
            Some(m) => answered_request(m) == Some(id) && text::trim(m.body).len() > 0,
            None => false,
        },
    ensures
        ({
            let answer = text::trim(message::parse_message(callback)->Some_0.body);
            let waiting = with_slot(slots, id);
            let ready = after_callback(waiting, callback);
            let done = after_poll(ready, id);
            &&& poll_reply(waiting, id) == short_reply(202, "pending"@)
            &&& after_poll(waiting, id) == waiting
            &&& callback_status(callback) == 200
            &&& poll_reply(ready, id) == short_reply(200, answer)
            &&& poll_reply(done, id) == short_reply(404, "unknown request_id"@)
            &&& done == slots.remove(id)
        }),
{
    let done = after_poll(after_callback(with_slot(slots, id), callback), id);
    assert(done =~= slots.remove(id));
}

/// The headers of an offer survive the wire where the request does.
proof fn lemma_offer_is_plain(request_id: Seq<char>, body: Seq<char>)
    requires
        text::is_trimmed(request_id),
        !request_id.contains('\n'),
    ensures
        roundtrip::are_plain_headers(offer_message(request_id, body).headers),
{
    reveal(roundtrip::is_plain_header);
    reveal_strlit("amp");
    reveal_strlit("1");
    reveal_strlit("type");
    reveal_strlit("request");
    reveal_strlit("command");
    reveal_strlit("sdp-offer");
    reveal_strlit("from");
    reveal_strlit("browser.cachyos.amp");
    reveal_strlit("to");
    reveal_strlit("sfu.cachyos.amp");
    reveal_strlit("id");
    let hs = offer_message(request_id, body).headers;
    assert forall|i: int| 0 <= i < hs.len() implies roundtrip::is_plain_header(
        #[trigger] hs[i],
    ) by {
        let k = hs[i].0;
        assert forall|j: int| !text::occurs_at(k, message::separator(), j) by {
            if text::occurs_at(k, message::separator(), j) {
                assert(k.subrange(j, j + 2)[0] == ':');
            }
        }
    }
}

/// The address that offers go to is that of the SFU of the node.
proof fn lemma_sfu_address()
    ensures
        address::parse_address("sfu.cachyos.amp"@) == Some(
            AddressView { port: None, app: Some("sfu"@), node: NODE_NAME@ },
        ),
{
    let a = AddressView { port: None, app: Some("sfu"@), node: NODE_NAME@ };
    reveal_strlit("sfu.cachyos.amp");
    reveal_strlit("sfu");
    reveal_strlit("cachyos");
    assert(address::format_address(a) =~= "sfu.cachyos.amp"@);
    address::law_format_parse(a);
}

/// An offer that the harness hands to the daemon of its node comes to the daemon's SFU: under the
/// request that it was given, with the browser's text and one line end behind it.
pub proof fn law_offer_reaches_sfu(
    peers: Map<Seq<char>, PeerView>,
    request_id: Seq<char>,
    body: Seq<char>,
    relayed: Option<PacketView>,
)
    requires
        text::is_trimmed(request_id),
        !request_id.contains('\n'),
    ensures
        bridge::send_action(
            peers,
            true,
            NODE_NAME@,
            message::wire(offer_message(request_id, body)),
            relayed,
        ) == (ActionView::Sfu {
            msg_id: request_id,
            command: CommandView::SdpOffer {
                request_id,
                from_addr: "browser.cachyos.amp"@,
                to_addr: "sfu.cachyos.amp"@,
                sdp: body.push('\n'),
                room: None,
                role: None,
            },
        }),
{
    let m = offer_message(request_id, body);
    lemma_offer_keys(request_id, body);
    lemma_offer_is_plain(request_id, body);
    roundtrip::law_write_read(m);
    assert(message::wire_body(m.body) == m.body);
    lemma_sfu_address();
    strmap::lemma_slot(m.headers, 2);
    strmap::lemma_slot(m.headers, 3);
    strmap::lemma_slot(m.headers, 4);
    strmap::lemma_slot(m.headers, 5);
    reveal_strlit("amp");
    reveal_strlit("type");
    reveal_strlit("command");
    reveal_strlit("from");
    reveal_strlit("to");
    reveal_strlit("id");
    reveal_strlit("room");
    reveal_strlit("role");
    assert("room"@.len() == 4 && "role"@.len() == 4 && "amp"@.len() == 3 && "type"@.len() == 4
        && "command"@.len() == 7 && "from"@.len() == 4 && "to"@.len() == 2 && "id"@.len() == 2);
    assert("room"@[0] == 'r' && "role"@[0] == 'r' && "type"@[0] == 't' && "from"@[0] == 'f');
    assert(!strmap::has_key(m.headers, "room"@));
    assert(!strmap::has_key(m.headers, "role"@));
}

/// What a browser sends is handed on exactly where it is JSON with the type `offer`; else it is told
/// why not, with 400.
pub proof fn law_only_offers_are_handed_on(kind: Result<Option<Seq<char>>, Seq<char>>)
    ensures
        offer_fault(kind) is None <==> kind == Ok::<Option<Seq<char>>, Seq<char>>(
            Some("offer"@),
        ),
        offer_fault(kind) matches Some(reply) ==> reply.status == 400 && reply.mesh_id is None,
        kind matches Err(e) ==> (offer_fault(kind) matches Some(reply) && reply.body
            == "invalid JSON: "@ + e),
        kind is Ok ==> (offer_fault(kind) matches Some(reply) ==> reply.body
            == "expected type: offer"@),
{
}

/// The type of what a browser sends is the text of its member `type`, and there is none where that
/// is missing or is no text.
pub proof fn law_kind_is_the_type_member(body: Seq<char>, kind: Seq<char>)
    ensures
        kind_in(body) == Ok::<Option<Seq<char>>, Seq<char>>(Some(kind)) <==> (json::json_value(body)
            matches Ok(value) && (json::member(value, "type"@) matches Some(v) && json::string_in(v)
            == Some(kind))),
        json::json_value(body) matches Err(e) ==> kind_in(body) == Err::<
            Option<Seq<char>>,
            Seq<char>,
        >(e),
        json::json_value(body) is Ok ==> kind_in(body) is Ok,
{
}

/// The answers to different requests do not meet: handing an offer on, asking for an answer and
/// getting one changes nothing for any other request.
pub proof fn law_requests_are_apart(
    slots: Map<Seq<char>, Seq<char>>,
    id: Seq<char>,
    body: Seq<char>,
    other: Seq<char>,
)
    ensures
        other != id ==> {
            &&& with_slot(slots, id).contains_key(other) == slots.contains_key(other)
            &&& after_poll(slots, id).contains_key(other) == slots.contains_key(other)
            &&& slots.contains_key(other) ==> with_slot(slots, id)[other] == slots[other]
                && after_poll(slots, id)[other] == slots[other]
        },
        !(message::parse_message(body) matches Some(m) && message::header(m, "command"@) == Some(
            "sdp-answer"@,
        ) && message::header(m, "reply-to"@) == Some(other)) ==> {
            &&& after_callback(slots, body).contains_key(other) == slots.contains_key(other)
            &&& slots.contains_key(other) ==> after_callback(slots, body)[other] == slots[other]
        },
        after_callback(slots, body).dom() == slots.dom(),
{
    assert(after_callback(slots, body).dom() =~= slots.dom());
}

/// An answer that comes in for a request that is waited for is kept, without white space around it;
/// what the daemon posts is refused exactly where it is no message, or an answer to nothing.
pub proof fn law_answers_are_kept(
    slots: Map<Seq<char>, Seq<char>>,
    id: Seq<char>,
    body: Seq<char>,
)
    ensures
        (message::parse_message(body) matches Some(m) && message::header(m, "command"@) == Some(
            "sdp-answer"@,
        ) && message::header(m, "reply-to"@) == Some(id) && slots.contains_key(id))
            ==> after_callback(slots, body)[id] == text::trim(
            message::parse_message(body)->Some_0.body,
        ),
        callback_status(body) == 400 <==> {
            ||| message::parse_message(body) is None
            ||| message::parse_message(body) matches Some(m) && message::header(m, "command"@)
                == Some("sdp-answer"@) && message::header(m, "reply-to"@) is None
        },
        callback_status(body) == 400 || callback_status(body) == 200,
{
}

/// A browser that asks is told 404 for a request that is not known, 202 while it waits, and 200 with
/// the answer, which is then gone; nothing else changes.
pub proof fn law_poll(slots: Map<Seq<char>, Seq<char>>, id: Seq<char>)
    ensures
        poll_reply(slots, id).mesh_id is None,
        !slots.contains_key(id) ==> poll_reply(slots, id).status == 404 && poll_reply(slots, id).body
            == "unknown request_id"@ && after_poll(slots, id) == slots,
        slots.contains_key(id) && slots[id].len() == 0 ==> poll_reply(slots, id).status == 202
            && poll_reply(slots, id).body == "pending"@ && after_poll(slots, id) == slots,
        slots.contains_key(id) && slots[id].len() > 0 ==> poll_reply(slots, id).status == 200
            && poll_reply(slots, id).body == slots[id] && !after_poll(slots, id).contains_key(id),
        with_slot(slots, id).contains_key(id) && with_slot(slots, id)[id].len() == 0,
{
}

/// Why a message was not handed to the daemon is told by where it failed and in the words of what
/// failed.
pub proof fn law_meshd_errors_tell_their_cause(s: String)
    ensures
        meshd_error_text(MeshdError::Connect(s)) == "connect to "@ + MESHD_SOCKET@ + ": "@ + s@,
        meshd_error_text(MeshdError::Handshake(s)) == "handshake: "@ + s@,
        meshd_error_text(MeshdError::Build(s)) == "build request: "@ + s@,
        meshd_error_text(MeshdError::Send(s)) == "send request: "@ + s@,
        meshd_error_text(MeshdError::Read(s)) == "read body: "@ + s@,
{
}

/// The answers that are waited for are those that are held.
pub proof fn law_slots_say_what_they_hold(pending: PendingAnswers, k: Seq<char>)
    ensures
        pending@.contains_key(k) <==> pending.slots@.contains_key(k),
        pending@.contains_key(k) ==> pending@[k] == pending.slots@[k]@,
{
}

/// The message that hands an offer on goes from the browser to the SFU of the node, names its
/// request, and carries the browser's text with one line end behind it.
pub proof fn law_offer_message(request_id: Seq<char>, body: Seq<char>)
    ensures
        ({
            let m = offer_message(request_id, body);
            &&& message::header(m, "amp"@) == Some("1"@)
            &&& message::header(m, "type"@) == Some("request"@)
            &&& message::header(m, "command"@) == Some("sdp-offer"@)
            &&& message::header(m, "from"@) == Some("browser.cachyos.amp"@)
            &&& message::header(m, "to"@) == Some("sfu.cachyos.amp"@)
            &&& message::header(m, "id"@) == Some(request_id)
            &&& m.headers.len() == 6
            &&& m.body == body.push('\n')
        }),
{
    let m = offer_message(request_id, body);
    lemma_offer_keys(request_id, body);
    strmap::lemma_slot(m.headers, 0);
    strmap::lemma_slot(m.headers, 1);
    strmap::lemma_slot(m.headers, 2);
    strmap::lemma_slot(m.headers, 3);
    strmap::lemma_slot(m.headers, 4);
    strmap::lemma_slot(m.headers, 5);
}

/// An answer in a few words has its status and its words, and names no message.
pub proof fn law_short_reply(status: u16, body: Seq<char>)
    ensures
        short_reply(status, body).status == status,
        short_reply(status, body).body == body,
        short_reply(status, body).mesh_id is None,
{
}

} // verus!
