//! WebRTC sessions.
use vstd::prelude::*;

use crate::engine;
use crate::engine::{HostAddr, HostIp};
use crate::message;
use crate::message::{AmpMessage, MessageView};
use crate::relay::MediaKind;
use crate::room::Role;
use crate::strmap;
use crate::strmap::StrMap;
use crate::text;

verus! {

/// The media lines of a session, by the kind of media on them.
#[derive(Debug)]
pub struct MidMap {
    pub audio: Option<String>,
    pub video: Option<String>,
}

/// What a [`MidMap`] says.
pub struct MidView {
    pub audio: Option<Seq<char>>,
    pub video: Option<Seq<char>>,
}

impl View for MidMap {
    type V = MidView;

    open spec fn view(&self) -> MidView {
        MidView { audio: text::text_option(self.audio), video: text::text_option(self.video) }
    }
}

/// The media line of a kind.
pub open spec fn mid_of(mids: MidView, kind: MediaKind) -> Option<Seq<char>> {
    match kind {
        MediaKind::Audio => mids.audio,
        MediaKind::Video => mids.video,
    }
}

/// The kind of media on a media line.
pub open spec fn kind_of(mids: MidView, mid: Seq<char>) -> Option<MediaKind> {
    if mids.audio == Some(mid) {
        Some(MediaKind::Audio)
    } else if mids.video == Some(mid) {
        Some(MediaKind::Video)
    } else {
        None
    }
}

/// The media lines once `kind` is on `mid`.
pub open spec fn with_mid(mids: MidView, kind: MediaKind, mid: Seq<char>) -> MidView {
    match kind {
        MediaKind::Audio => MidView { audio: Some(mid), ..mids },
        MediaKind::Video => MidView { video: Some(mid), ..mids },
    }
}

/// Whether an optional string is `s`.
fn option_is(o: &Option<String>, s: &str) -> (r: bool)
    ensures
        r == (text::text_option(*o) == Some(s@)),
{
    match o {
        Some(t) => text::str_eq(t.as_str(), s),
        None => false,
    }
}

impl MidMap {
    /// No media lines yet.
    pub fn new() -> (r: MidMap)
        ensures
            r@ == (MidView { audio: None, video: None }),
    {
        MidMap { audio: None, video: None }
    }

    /// The media line of a kind.
    pub fn get(&self, kind: MediaKind) -> (r: Option<&String>)
        ensures
            (match r {
                Some(mid) => Some(mid@),
                None => None,
            }) == mid_of(self@, kind),
    {
        match kind {
            MediaKind::Audio => self.audio.as_ref(),
            MediaKind::Video => self.video.as_ref(),
        }
    }

    /// The kind of media on a media line.
    pub fn kind_on(&self, mid: &str) -> (r: Option<MediaKind>)
        ensures
            r == kind_of(self@, mid@),
    {
        if option_is(&self.audio, mid) {
            Some(MediaKind::Audio)
        } else if option_is(&self.video, mid) {
            Some(MediaKind::Video)
        } else {
            None
        }
    }

    /// Lets `kind` be on `mid`.
    pub fn insert(&mut self, kind: MediaKind, mid: String)
        ensures
            final(self)@ == with_mid(old(self)@, kind, mid@),
    {
        match kind {
            MediaKind::Audio => {
                self.audio = Some(mid);
            },
            MediaKind::Video => {
                self.video = Some(mid);
            },
        }
    }
}

/// What is on a media line is found on it, and is found on no other line of that kind.
pub proof fn law_mids(mids: MidView, kind: MediaKind, mid: Seq<char>)
    ensures
        mid_of(with_mid(mids, kind, mid), kind) == Some(mid),
        kind_of(with_mid(mids, kind, mid), mid) is Some,
        kind_of(mids, mid) matches Some(k) ==> mid_of(mids, k) == Some(mid),
        kind_of(mids, mid) is None ==> mid_of(mids, kind) != Some(mid),
{
}

/// Media that came in on a media line. `frame` is the engine's own value for it.
#[derive(Debug)]
pub struct MediaData<F> {
    pub mid: String,
    /// RTP payload type
    pub pt: u8,
    /// The numerator of the media time.
    pub time: u64,
    pub data: Vec<u8>,
    pub frame: F,
}

/// A request for a keyframe on a media line. `kind` is the engine's own value for its kind.
#[derive(Debug)]
pub struct KeyframeRequest<K> {
    pub mid: String,
    pub kind: K,
}

/// Events collected during session drain, processed by the event loop for fanout.
#[derive(Debug)]
pub enum SessionEvent<F, K> {
    /// Media data from a publisher to forward to subscribers.
    MediaData(MediaData<F>),
    /// Keyframe request from a subscriber to forward to the publisher.
    KeyframeRequest(KeyframeRequest<K>),
}

/// What the engine reports.
#[derive(Debug)]
pub enum RtcEvent<F, K> {
    /// The ICE connection is in another state than before.
    IceConnectionStateChange { disconnected: bool },
    /// The connection is up.
    Connected,
    /// There is a media line.
    MediaAdded { kind: MediaKind, mid: String },
    /// Media came in.
    MediaData(MediaData<F>),
    /// The peer asks for a keyframe.
    KeyframeRequest(KeyframeRequest<K>),
    /// Anything else.
    Other,
}

/// What is done about what the engine reports.
#[derive(Debug)]
pub enum EventOutcome<F, K> {
    Nothing,
    /// Hand an event to the event loop.
    Event(SessionEvent<F, K>),
    /// Write the media back on the media line that it came in on.
    EchoMedia(MediaData<F>),
    /// Ask for a keyframe on the media line that one was asked for on.
    EchoKeyframe(KeyframeRequest<K>),
}

/// UDP packets the SFU loop needs to transmit.
#[derive(Debug)]
pub struct Transmit {
    pub dest: HostAddr,
    pub data: Vec<u8>,
}

/// What the engine puts out. Times are nanoseconds on one clock.
#[derive(Debug)]
pub enum RtcOutput<F, K> {
    /// The engine wants to be woken at a time.
    Timeout(u64),
    /// The engine wants a packet to be sent.
    Transmit(Transmit),
    /// The engine reports something.
    Event(RtcEvent<F, K>),
    /// The engine failed.
    Error,
}

/// What has been collected from the engine.
#[derive(Debug)]
pub struct Drained<F, K> {
    pub transmits: Vec<Transmit>,
    pub events: Vec<SessionEvent<F, K>>,
    pub next_timeout: Option<u64>,
}

/// How collecting from the engine goes on.
#[derive(Debug)]
pub enum DrainStep<F, K> {
    /// Poll the engine again.
    Poll,
    /// Wake the engine, say whether that failed, and poll it again.
    Wake,
    /// Write media back, and poll the engine again.
    EchoMedia(MediaData<F>),
    /// Ask for a keyframe, and poll the engine again.
    EchoKeyframe(KeyframeRequest<K>),
    /// There is no more to collect.
    Done,
}

/// A WebRTC session around an engine instance.
///
/// Each session corresponds to one browser peer connection.
#[derive(Debug)]
pub struct Session<R> {
    pub id: String,
    pub from_addr: String,
    pub rtc: R,
    /// Room name (None = legacy loopback mode).
    pub room: Option<String>,
    /// Role within the room.
    pub role: Option<Role>,
    /// Map from MediaKind to Mid, built from MediaAdded events.
    pub mid_by_kind: MidMap,
    pub alive: bool,
}

/// Result of handling an SDP offer: the new session + an AMP answer message.
#[derive(Debug)]
pub struct OfferResult<R> {
    pub session: Session<R>,
    pub answer_msg: AmpMessage,
}

/// Why an SDP offer is not answered, in the engine's words.
#[derive(Debug)]
pub enum OfferError {
    /// The offer is not the JSON text of one.
    Json(String),
    /// This host's address is not one to be reached by.
    Candidate(String),
    /// The engine does not accept the offer.
    Accept(String),
    /// The answer has no JSON text.
    Answer(String),
}

/// Why an SDP offer is not answered.
pub open spec fn offer_error_text(e: OfferError) -> Seq<char> {
    match e {
        OfferError::Json(s) => "invalid SDP offer JSON: "@ + s@,
        OfferError::Candidate(s) => "invalid candidate: "@ + s@,
        OfferError::Accept(s) => "accept_offer failed: "@ + s@,
        OfferError::Answer(s) => "serialize answer: "@ + s@,
    }
}

/// The address by which peers are told to reach this host: the one that it listens at, where it
/// listens at one.
pub open spec fn candidate_addr(local: HostAddr, default_ip: HostIp) -> HostAddr {
    if engine::is_unspecified_ip(local.ip) {
        HostAddr { ip: default_ip, port: local.port }
    } else {
        local
    }
}

/// The message that answers an offer.
pub open spec fn answer_message(
    request_id: Seq<char>,
    from_addr: Seq<char>,
    to_addr: Seq<char>,
    answer: Seq<char>,
) -> MessageView {
    MessageView {
        headers: seq![
            ("amp"@, "1"@),
            ("type"@, "response"@),
            ("command"@, "sdp-answer"@),
            ("from"@, to_addr),
            ("to"@, from_addr),
            ("reply-to"@, request_id),
        ],
        body: answer,
    }
}

/// A session as it starts.
pub open spec fn is_new_session<R>(
    s: Session<R>,
    request_id: Seq<char>,
    from_addr: Seq<char>,
    room: Option<String>,
    role: Option<Role>,
) -> bool {
    &&& s.id@ == request_id
    &&& s.from_addr@ == from_addr
    &&& s.room == room
    &&& s.role == role
    &&& s.mid_by_kind@ == (MidView { audio: None, video: None })
    &&& s.alive
}

/// The address by which peers are told to reach this host.
pub fn resolve_candidate_addr(local: HostAddr, default_ip: HostIp) -> (r: HostAddr)
    ensures
        r == candidate_addr(local, default_ip),
{
    let unspecified: bool = match local.ip {
        HostIp::V4(n) => n == 0,
        HostIp::V6(n) => n == 0,
    };
    if unspecified {
        HostAddr { ip: default_ip, port: local.port }
    } else {
        local
    }
}

impl OfferError {
    /// Why an SDP offer is not answered.
    pub fn message(&self) -> (r: String)
        ensures
            r@ == offer_error_text(*self),
    {
        match self {
            OfferError::Json(s) => text::concat("invalid SDP offer JSON: ", s.as_str()),
            OfferError::Candidate(s) => text::concat("invalid candidate: ", s.as_str()),
            OfferError::Accept(s) => text::concat("accept_offer failed: ", s.as_str()),
            OfferError::Answer(s) => text::concat("serialize answer: ", s.as_str()),
        }
    }
}

/// The keys of an answer are told apart.
proof fn lemma_answer_keys(
    request_id: Seq<char>,
    from_addr: Seq<char>,
    to_addr: Seq<char>,
    answer: Seq<char>,
)
    ensures
        strmap::distinct_keys(answer_message(request_id, from_addr, to_addr, answer).headers),
{
    reveal_strlit("amp");
    reveal_strlit("type");
    reveal_strlit("command");
    reveal_strlit("from");
    reveal_strlit("to");
    reveal_strlit("reply-to");
    assert("amp"@.len() == 3 && "command"@.len() == 7 && "to"@.len() == 2 && "reply-to"@.len() == 8);
    assert("type"@.len() == 4 && "from"@.len() == 4);
    assert("type"@[0] == 't' && "from"@[0] == 'f');
}

impl<R> Session<R> {
    /// What comes of an offer, once the engine has answered it or not: a session around the engine
    /// instance and a message with the answer, or the words that say why there is none.
    pub fn conclude_offer(
        request_id: &str,
        from_addr: &str,
        to_addr: &str,
        outcome: Result<(R, String), OfferError>,
        room: Option<String>,
        role: Option<Role>,
    ) -> (r: Result<OfferResult<R>, String>)
        ensures
            match outcome {
                Ok((rtc, answer)) => r matches Ok(result) && is_new_session(
                    result.session,
                    request_id@,
                    from_addr@,
                    room,
                    role,
                ) && result.session.rtc == rtc && result.answer_msg@ == answer_message(
                    request_id@,
                    from_addr@,
                    to_addr@,
                    answer@,
                ),
                Err(e) => r matches Err(words) && words@ == offer_error_text(e),
            },
    {
        match outcome {
            Err(e) => Err(e.message()),
            Ok((rtc, answer)) => {
                let pairs: Vec<(&'static str, String)> = vec![
                    ("amp", "1".to_owned()),
                    ("type", "response".to_owned()),
                    ("command", "sdp-answer".to_owned()),
                    ("from", to_addr.to_owned()),
                    ("to", from_addr.to_owned()),
                    ("reply-to", request_id.to_owned()),
                ];
                proof {
                    let ps = pairs@.map_values(|p: (&'static str, String)| (p.0@, p.1@));
                    assert(ps =~= answer_message(
                        request_id@,
                        from_addr@,
                        to_addr@,
                        answer@,
                    ).headers);
                    lemma_answer_keys(request_id@, from_addr@, to_addr@, answer@);
                    message::lemma_collect_distinct(ps);
                }
                let headers: StrMap<String> = AmpMessage::command(pairs).headers;
                let answer_msg: AmpMessage = AmpMessage::new(headers, answer.as_str());
                let session: Session<R> = Session {
                    id: request_id.to_owned(),
                    from_addr: from_addr.to_owned(),
                    rtc,
                    room,
                    role,
                    mid_by_kind: MidMap::new(),
                    alive: true,
                };
                Ok(OfferResult { session, answer_msg })
            },
        }
    }
}

/// An offer that the engine is to answer: who asks for what, and the engine instance to be asked.
#[derive(Debug)]
pub struct PendingOffer<R> {
    pub request_id: String,
    pub from_addr: String,
    pub to_addr: String,
    pub rtc: R,
    pub room: Option<String>,
    pub role: Option<Role>,
}

/// An engine instance as it is before it is asked: it works, and tells its peer to reach it at
/// `addr` alone.
pub open spec fn is_fresh_engine(rtc: str0m::Rtc, addr: HostAddr) -> bool {
    engine::is_working(rtc) && engine::local_addresses(rtc) == seq![addr]
}

/// The engine's part in handling an offer before it is answered: a working instance that tells its
/// peer to reach it at `addr`.
fn prepare_engine(addr: HostAddr) -> (r: Result<str0m::Rtc, OfferError>)
    ensures
        match engine::candidate_of(addr) {
            Err(e) => !engine::is_reachable_ip(addr.ip) && (r matches Err(OfferError::Candidate(s))
                && s@ == e),
            Ok(_) => engine::is_reachable_ip(addr.ip) && (r matches Ok(rtc) && is_fresh_engine(
                rtc,
                addr,
            )),
        },
{
    let mut rtc: str0m::Rtc = engine::new_rtc();
    match engine::host_candidate(&addr) {
        Ok(candidate) => {
            assert(engine::is_host_candidate(candidate));
            engine::add_candidate(&mut rtc, candidate);
            Ok(rtc)
        },
        Err(e) => Err(OfferError::Candidate(e)),
    }
}

/// What an offer's text was read as, with the words on what is wrong with it as text.
pub open spec fn reading(read: Result<str0m::change::SdpOffer, String>) -> Result<
    str0m::change::SdpOffer,
    Seq<char>,
> {
    match read {
        Ok(offer) => Ok(offer),
        Err(e) => Err(e@),
    }
}

/// What is done about an offer on a host that is reached at `addr`, once its text is read as
/// `read`: text that spells no offer and an address that peers cannot be told of are refused in
/// words; for any other offer an engine instance is to be asked.
pub open spec fn is_offer_step(
    request_id: Seq<char>,
    from_addr: Seq<char>,
    to_addr: Seq<char>,
    read: Result<str0m::change::SdpOffer, Seq<char>>,
    addr: HostAddr,
    room: Option<String>,
    role: Option<Role>,
    r: Result<(PendingOffer<str0m::Rtc>, str0m::change::SdpOffer), String>,
) -> bool {
    match read {
        Err(e) => r matches Err(words) && words@ == "invalid SDP offer JSON: "@ + e,
        Ok(offer) => match engine::candidate_of(addr) {
            Err(e) => !engine::is_reachable_ip(addr.ip) && (r matches Err(words) && words@
                == "invalid candidate: "@ + e),
            Ok(_) => engine::is_reachable_ip(addr.ip) && (r matches Ok((pending, o)) && {
                &&& o == offer
                &&& is_fresh_engine(pending.rtc, addr)
                &&& pending.request_id@ == request_id
                &&& pending.from_addr@ == from_addr
                &&& pending.to_addr@ == to_addr
                &&& pending.room == room
                &&& pending.role == role
            }),
        },
    }
}

/// What is done about the offer in a text: the step for a reading of the text, which is an offer
/// exactly where the text spells one.
pub open spec fn is_offer_outcome(
    request_id: Seq<char>,
    from_addr: Seq<char>,
    to_addr: Seq<char>,
    sdp_json: Seq<char>,
    addr: HostAddr,
    room: Option<String>,
    role: Option<Role>,
    r: Result<(PendingOffer<str0m::Rtc>, str0m::change::SdpOffer), String>,
) -> bool {
    exists|read: Result<str0m::change::SdpOffer, Seq<char>>|
        {
            &&& #[trigger] engine::is_reading(sdp_json, read)
            &&& read is Ok <==> engine::spells_offer(sdp_json)
            &&& is_offer_step(request_id, from_addr, to_addr, read, addr, room, role, r)
        }
}

/// An engine instance is asked exactly about text that spells an offer, on a host at an address that
/// peers can be told of.
pub proof fn law_offers_are_asked(
    request_id: Seq<char>,
    from_addr: Seq<char>,
    to_addr: Seq<char>,
    sdp_json: Seq<char>,
    addr: HostAddr,
    room: Option<String>,
    role: Option<Role>,
    r: Result<(PendingOffer<str0m::Rtc>, str0m::change::SdpOffer), String>,
)
    requires
        is_offer_outcome(request_id, from_addr, to_addr, sdp_json, addr, room, role, r),
    ensures
        r is Ok <==> engine::spells_offer(sdp_json) && engine::is_reachable_ip(addr.ip),
{
}

/// The JSON text of the engine's answer, or why there is none, in words.
pub open spec fn answer_words(answer: Result<str0m::change::SdpAnswer, String>) -> Result<
    Seq<char>,
    Seq<char>,
> {
    match answer {
        Err(e) => Err("accept_offer failed: "@ + e@),
        Ok(a) => match engine::answer_text(a) {
            Err(e) => Err("serialize answer: "@ + e),
            Ok(t) => Ok(t),
        },
    }
}

/// What comes of an offer once the engine has answered it, or not: with an answer there is a new
/// session in the room that was asked for, and a message that carries the answer's text.
pub open spec fn is_offer_result(
    pending: PendingOffer<str0m::Rtc>,
    answer: Result<str0m::change::SdpAnswer, String>,
    r: Result<OfferResult<str0m::Rtc>, String>,
) -> bool {
    match answer_words(answer) {
        Err(e) => r matches Err(words) && words@ == e,
        Ok(t) => r matches Ok(result) && {
            &&& is_new_session(
                result.session,
                pending.request_id@,
                pending.from_addr@,
                pending.room,
                pending.role,
            )
            &&& result.session.rtc == pending.rtc
            &&& result.answer_msg@ == answer_message(
                pending.request_id@,
                pending.from_addr@,
                pending.to_addr@,
                t,
            )
        },
    }
}

impl PendingOffer<str0m::Rtc> {
    /// What comes of the offer, once the engine has answered it or said why it does not.
    pub fn answered(self, answer: Result<str0m::change::SdpAnswer, String>) -> (r: Result<
        OfferResult<str0m::Rtc>,
        String,
    >)
        ensures
            is_offer_result(self, answer, r),
    {
        let outcome: Result<(str0m::Rtc, String), OfferError> = match answer {
            Err(e) => Err(OfferError::Accept(e)),
            Ok(a) => match engine::write_answer(&a) {
                Ok(t) => Ok((self.rtc, t)),
                Err(e) => Err(OfferError::Answer(e)),
            },
        };
        Session::conclude_offer(
            self.request_id.as_str(),
            self.from_addr.as_str(),
            self.to_addr.as_str(),
            outcome,
            self.room,
            self.role,
        )
    }
}

/// A session is up: neither has it ended, nor has its engine.
pub open spec fn is_session_alive(s: Session<str0m::Rtc>) -> bool {
    s.alive && engine::is_working(s.rtc)
}

impl Session<str0m::Rtc> {
    /// What is done about an SDP offer, where `read` is what its text was read as: gives the offer
    /// and the engine instance that is to answer it, or the words that say why none is asked.
    pub fn take_sdp_offer(
        request_id: &str,
        from_addr: &str,
        to_addr: &str,
        read: Result<str0m::change::SdpOffer, String>,
        local_addr: HostAddr,
        default_ip: HostIp,
        room: Option<String>,
        role: Option<Role>,
    ) -> (r: Result<(PendingOffer<str0m::Rtc>, str0m::change::SdpOffer), String>)
        ensures
            is_offer_step(
                request_id@,
                from_addr@,
                to_addr@,
                reading(read),
                candidate_addr(local_addr, default_ip),
                room,
                role,
                r,
            ),
    {
        let offer: str0m::change::SdpOffer = match read {
            Ok(offer) => offer,
            Err(e) => {
                return Err(OfferError::Json(e).message());
            },
        };
        match prepare_engine(resolve_candidate_addr(local_addr, default_ip)) {
            Ok(rtc) => {
                let pending: PendingOffer<str0m::Rtc> = PendingOffer {
                    request_id: request_id.to_owned(),
                    from_addr: from_addr.to_owned(),
                    to_addr: to_addr.to_owned(),
                    rtc,
                    room,
                    role,
                };
                Ok((pending, offer))
            },
            Err(e) => Err(e.message()),
        }
    }

    /// Process an SDP offer: gives the offer and the engine instance that is to answer it, or the
    /// words that say why none is asked. [`PendingOffer::answered`] makes the session.
    ///
    /// If room/role are provided, the session participates in room-based fanout.
    /// If None, the session operates in legacy loopback mode.
    ///
    /// A host that listens at every address is reached at `default_ip`.
    pub fn handle_sdp_offer(
        request_id: &str,
        from_addr: &str,
        to_addr: &str,
        sdp_json: &str,
        local_addr: HostAddr,
        default_ip: HostIp,
        room: Option<String>,
        role: Option<Role>,
    ) -> (r: Result<(PendingOffer<str0m::Rtc>, str0m::change::SdpOffer), String>)
        ensures
            is_offer_outcome(
                request_id@,
                from_addr@,
                to_addr@,
                sdp_json@,
                candidate_addr(local_addr, default_ip),
                room,
                role,
                r,
            ),
    {
        let read: Result<str0m::change::SdpOffer, String> = engine::read_offer(sdp_json);
        let ghost seen = reading(read);
        assert(engine::is_reading(sdp_json@, seen));
        Session::take_sdp_offer(
            request_id,
            from_addr,
            to_addr,
            read,
            local_addr,
            default_ip,
            room,
            role,
        )
    }

    /// What comes of feeding a network input to the engine, where `outcome` is what the engine
    /// says.
    pub fn handle_input(outcome: Result<(), String>) -> (r: Result<(), String>)
        ensures
            text::text_error(r) == (match outcome {
                Ok(()) => Ok(()),
                Err(e) => Err("handle_input: "@ + e@),
            }),
    {
        match outcome {
            Ok(()) => Ok(()),
            Err(e) => Err(text::concat("handle_input: ", e.as_str())),
        }
    }

    /// Whether this session is still alive.
    pub fn is_alive(&self) -> (r: bool)
        ensures
            r == is_session_alive(*self),
    {
        self.alive && self.rtc.is_alive()
    }
}

/// What a session does about what its engine reports: in a room it hands media and keyframe
/// requests to the event loop, and otherwise it echoes them.
pub open spec fn event_outcome<F, K>(in_room: bool, event: RtcEvent<F, K>) -> EventOutcome<F, K> {
    match event {
        RtcEvent::MediaData(data) => if in_room {
            EventOutcome::Event(SessionEvent::MediaData(data))
        } else {
            EventOutcome::EchoMedia(data)
        },
        RtcEvent::KeyframeRequest(request) => if in_room {
            EventOutcome::Event(SessionEvent::KeyframeRequest(request))
        } else {
            EventOutcome::EchoKeyframe(request)
        },
        _ => EventOutcome::Nothing,
    }
}

/// The media lines of a session once its engine has reported something.
pub open spec fn event_mids<F, K>(mids: MidView, event: RtcEvent<F, K>) -> MidView {
    match event {
        RtcEvent::MediaAdded { kind, mid } => with_mid(mids, kind, mid@),
        _ => mids,
    }
}

/// What its engine reports ends a session.
pub open spec fn event_ends<F, K>(event: RtcEvent<F, K>) -> bool {
    match event {
        RtcEvent::IceConnectionStateChange { disconnected } => disconnected,
        _ => false,
    }
}

/// A session is what it was, but for its media lines and whether it is alive.
pub open spec fn same_session<R>(a: Session<R>, b: Session<R>) -> bool {
    &&& a.id == b.id
    &&& a.from_addr == b.from_addr
    &&& a.rtc == b.rtc
    &&& a.room == b.room
    &&& a.role == b.role
}

/// How collecting goes on behind an output of the engine.
pub open spec fn drain_step<F, K>(in_room: bool, output: RtcOutput<F, K>, now: u64) -> DrainStep<
    F,
    K,
> {
    match output {
        RtcOutput::Timeout(deadline) => if deadline <= now {
            DrainStep::Wake
        } else {
            DrainStep::Done
        },
        RtcOutput::Transmit(_) => DrainStep::Poll,
        RtcOutput::Event(event) => match event_outcome(in_room, event) {
            EventOutcome::EchoMedia(data) => DrainStep::EchoMedia(data),
            EventOutcome::EchoKeyframe(request) => DrainStep::EchoKeyframe(request),
            _ => DrainStep::Poll,
        },
        RtcOutput::Error => DrainStep::Done,
    }
}

/// The events to hand to the event loop once the engine has put something out.
pub open spec fn drained_events<F, K>(
    events: Seq<SessionEvent<F, K>>,
    in_room: bool,
    output: RtcOutput<F, K>,
) -> Seq<SessionEvent<F, K>> {
    match output {
        RtcOutput::Event(event) => match event_outcome(in_room, event) {
            EventOutcome::Event(e) => events.push(e),
            _ => events,
        },
        _ => events,
    }
}

/// The packets to send once the engine has put something out.
pub open spec fn drained_transmits<F, K>(
    transmits: Seq<Transmit>,
    output: RtcOutput<F, K>,
) -> Seq<Transmit> {
    match output {
        RtcOutput::Transmit(t) => transmits.push(t),
        _ => transmits,
    }
}

/// The time to wake the engine at, once it has put something out.
pub open spec fn drained_timeout<F, K>(next: Option<u64>, output: RtcOutput<F, K>) -> Option<u64> {
    match output {
        RtcOutput::Timeout(deadline) => Some(deadline),
        _ => next,
    }
}

/// The media lines of a session once its engine has put something out.
pub open spec fn drained_mids<F, K>(mids: MidView, output: RtcOutput<F, K>) -> MidView {
    match output {
        RtcOutput::Event(event) => event_mids(mids, event),
        _ => mids,
    }
}

/// What its engine puts out ends a session.
pub open spec fn output_ends<F, K>(output: RtcOutput<F, K>) -> bool {
    match output {
        RtcOutput::Event(event) => event_ends(event),
        RtcOutput::Error => true,
        _ => false,
    }
}

impl<F, K> Drained<F, K> {
    /// Nothing has been collected yet.
    pub fn new() -> (r: Drained<F, K>)
        ensures
            r.transmits@ == Seq::<Transmit>::empty(),
            r.events@ == Seq::<SessionEvent<F, K>>::empty(),
            r.next_timeout is None,
    {
        Drained { transmits: Vec::new(), events: Vec::new(), next_timeout: None }
    }
}

impl<R> Session<R> {
    /// Handle what the engine reports.
    ///
    /// For room sessions: gives a SessionEvent for fanout processing.
    /// For loopback sessions (no room): gives media and keyframe requests to echo.
    pub fn handle_event<F, K>(&mut self, event: RtcEvent<F, K>) -> (r: EventOutcome<F, K>)
        ensures
            r == event_outcome(old(self).room is Some, event),
            same_session(*final(self), *old(self)),
            final(self).alive == (old(self).alive && !event_ends(event)),
            final(self).mid_by_kind@ == event_mids(old(self).mid_by_kind@, event),
    {
        match event {
            RtcEvent::IceConnectionStateChange { disconnected } => {
                if disconnected {
                    self.alive = false;
                }
                EventOutcome::Nothing
            },
            RtcEvent::Connected => EventOutcome::Nothing,
            RtcEvent::MediaAdded { kind, mid } => {
                self.mid_by_kind.insert(kind, mid);
                EventOutcome::Nothing
            },
            RtcEvent::MediaData(data) => {
                if self.room.is_some() {
                    EventOutcome::Event(SessionEvent::MediaData(data))
                } else {
                    EventOutcome::EchoMedia(data)
                }
            },
            RtcEvent::KeyframeRequest(request) => {
                if self.room.is_some() {
                    EventOutcome::Event(SessionEvent::KeyframeRequest(request))
                } else {
                    EventOutcome::EchoKeyframe(request)
                }
            },
            RtcEvent::Other => EventOutcome::Nothing,
        }
    }

    /// Drive the session forward by what its engine puts out at `now`.
    ///
    /// Collects UDP packets to transmit, session events (for room fanout), and the next timeout
    /// deadline, until the engine wants to be woken later.
    pub fn on_output<F, K>(
        &mut self,
        drained: &mut Drained<F, K>,
        output: RtcOutput<F, K>,
        now: u64,
    ) -> (r: DrainStep<F, K>)
        ensures
            r == drain_step(old(self).room is Some, output, now),
            same_session(*final(self), *old(self)),
            final(self).alive == (old(self).alive && !output_ends(output)),
            final(self).mid_by_kind@ == drained_mids(old(self).mid_by_kind@, output),
            final(drained).transmits@ == drained_transmits(old(drained).transmits@, output),
            final(drained).events@ == drained_events(
                old(drained).events@,
                old(self).room is Some,
                output,
            ),
            final(drained).next_timeout == drained_timeout(old(drained).next_timeout, output),
    {
        match output {
            RtcOutput::Timeout(deadline) => {
                drained.next_timeout = Some(deadline);
                if deadline <= now {
                    DrainStep::Wake
                } else {
                    DrainStep::Done
                }
            },
            RtcOutput::Transmit(t) => {
                drained.transmits.push(t);
                DrainStep::Poll
            },
            RtcOutput::Event(event) => match self.handle_event(event) {
                EventOutcome::Nothing => DrainStep::Poll,
                EventOutcome::Event(e) => {
                    drained.events.push(e);
                    DrainStep::Poll
                },
                EventOutcome::EchoMedia(data) => DrainStep::EchoMedia(data),
                EventOutcome::EchoKeyframe(request) => DrainStep::EchoKeyframe(request),
            },
            RtcOutput::Error => {
                self.alive = false;
                DrainStep::Done
            },
        }
    }

    /// Waking the engine failed: the session is over.
    pub fn wake_failed(&mut self)
        ensures
            *final(self) == (Session { alive: false, ..*old(self) }),
    {
        self.alive = false;
    }
}

/// Collecting stops exactly where the engine wants to be woken later, or has failed.
pub proof fn law_drain_stops<F, K>(in_room: bool, output: RtcOutput<F, K>, now: u64)
    ensures
        drain_step(in_room, output, now) is Done <==> output is Error || (output matches
            RtcOutput::Timeout(deadline) && deadline > now),
{
}

/// A session in a room echoes nothing, and one without a room hands nothing to the event loop.
pub proof fn law_rooms_do_not_echo<F, K>(
    in_room: bool,
    events: Seq<SessionEvent<F, K>>,
    output: RtcOutput<F, K>,
    now: u64,
)
    ensures
        in_room ==> drain_step(in_room, output, now) !is EchoMedia && drain_step(
            in_room,
            output,
            now,
        ) !is EchoKeyframe,
        !in_room ==> drained_events(events, in_room, output) == events,
{
}

/// An answer goes back where the offer came from, and names the request that it answers.
pub proof fn law_answer_reaches_its_sender(
    request_id: Seq<char>,
    from_addr: Seq<char>,
    to_addr: Seq<char>,
    answer: Seq<char>,
)
    ensures
        ({
            let m = answer_message(request_id, from_addr, to_addr, answer);
            &&& message::header(m, "to"@) == Some(from_addr)
            &&& message::header(m, "from"@) == Some(to_addr)
            &&& message::header(m, "reply-to"@) == Some(request_id)
            &&& message::header(m, "command"@) == Some("sdp-answer"@)
            &&& message::header(m, "type"@) == Some("response"@)
            &&& message::header(m, "amp"@) == Some("1"@)
            &&& m.headers.len() == 6
            &&& m.body == answer
        }),
{
    let m = answer_message(request_id, from_addr, to_addr, answer);
    lemma_answer_keys(request_id, from_addr, to_addr, answer);
    strmap::lemma_slot(m.headers, 0);
    strmap::lemma_slot(m.headers, 1);
    strmap::lemma_slot(m.headers, 2);
    strmap::lemma_slot(m.headers, 3);
    strmap::lemma_slot(m.headers, 4);
    strmap::lemma_slot(m.headers, 5);
}

/// A report of a media line says which line carries its kind, and nothing of the other kind: the
/// line that the session held for that is the same afterwards. Every other report leaves all lines
/// as they were.
pub proof fn law_reported_lines_add_up<F, K>(mids: MidView, event: RtcEvent<F, K>, other: MediaKind)
    ensures
        match event {
            RtcEvent::MediaAdded { kind, mid } => {
                &&& mid_of(event_mids(mids, event), kind) == Some(mid@)
                &&& other != kind ==> mid_of(event_mids(mids, event), other) == mid_of(mids, other)
            },
            _ => mid_of(event_mids(mids, event), other) == mid_of(mids, other),
        },
        drained_mids(mids, RtcOutput::Event(event)) == event_mids(mids, event),
{
}

/// Once one audio and one video line were reported, in whichever order and whatever else was
/// reported between, both are found by kind, and both kinds are found by line.
pub proof fn law_both_lines_are_known<F, K>(
    mids: MidView,
    kind: MediaKind,
    first: String,
    between: RtcEvent<F, K>,
    other: MediaKind,
    second: String,
)
    requires
        kind != other,
        first@ != second@,
        between !is MediaAdded,
    ensures
        ({
            let one = event_mids(mids, RtcEvent::<F, K>::MediaAdded { kind, mid: first });
            let two = event_mids(one, between);
            let all = event_mids(two, RtcEvent::<F, K>::MediaAdded { kind: other, mid: second });
            &&& mid_of(all, kind) == Some(first@)
            &&& mid_of(all, other) == Some(second@)
            &&& kind_of(all, first@) == Some(kind)
            &&& kind_of(all, second@) == Some(other)
        }),
{
}

/// What is on no line that the session knows is of no kind, and what is of a kind is on the line of
/// that kind.
pub proof fn law_kinds_are_found_by_line(mids: MidView, mid: Seq<char>)
    ensures
        kind_of(mids, mid) is Some <==> exists|kind: MediaKind|
            #[trigger] mid_of(mids, kind) == Some(mid),
        kind_of(mids, mid) matches Some(kind) ==> mid_of(mids, kind) == Some(mid),
        mid_of(mids, MediaKind::Audio) == Some(mid) ==> kind_of(mids, mid) == Some(
            MediaKind::Audio,
        ),
        mids.audio == mid_of(mids, MediaKind::Audio),
        mids.video == mid_of(mids, MediaKind::Video),
{
    if mids.audio == Some(mid) {
        assert(mid_of(mids, MediaKind::Audio) == Some(mid));
    }
    if mids.video == Some(mid) {
        assert(mid_of(mids, MediaKind::Video) == Some(mid));
    }
}

/// No media and no request for a keyframe is lost or changed: in a room it is the one event that is
/// handed on, behind those that were there; outside it is echoed.
pub proof fn law_reports_are_handed_on<F, K>(
    in_room: bool,
    events: Seq<SessionEvent<F, K>>,
    output: RtcOutput<F, K>,
    now: u64,
)
    ensures
        ({
            let after = drained_events(events, in_room, output);
            let step = drain_step(in_room, output, now);
            &&& events.is_prefix_of(after)
            &&& after.len() <= events.len() + 1
            &&& match output {
                RtcOutput::Event(RtcEvent::MediaData(data)) => if in_room {
                    after.len() == events.len() + 1 && after.last() == SessionEvent::<
                        F,
                        K,
                    >::MediaData(data) && step is Poll
                } else {
                    step == DrainStep::<F, K>::EchoMedia(data) && after == events
                },
                RtcOutput::Event(RtcEvent::KeyframeRequest(request)) => if in_room {
                    after.len() == events.len() + 1 && after.last() == SessionEvent::<
                        F,
                        K,
                    >::KeyframeRequest(request) && step is Poll
                } else {
                    step == DrainStep::<F, K>::EchoKeyframe(request) && after == events
                },
                _ => after == events && step !is EchoMedia && step !is EchoKeyframe,
            }
        }),
{
}

/// What is reported goes out the same way whether it comes alone or among the engine's outputs.
pub proof fn law_reports_are_answered_alike<F, K>(in_room: bool, event: RtcEvent<F, K>, now: u64)
    ensures
        event_outcome(in_room, event) matches EventOutcome::Event(e) ==> in_room && drained_events(
            Seq::<SessionEvent<F, K>>::empty(),
            in_room,
            RtcOutput::Event(event),
        ) == seq![e],
        event_outcome(in_room, event) matches EventOutcome::EchoMedia(d) ==> !in_room && event
            == RtcEvent::<F, K>::MediaData(d),
        event_outcome(in_room, event) matches EventOutcome::EchoKeyframe(d) ==> !in_room && event
            == RtcEvent::<F, K>::KeyframeRequest(d),
        event_outcome(in_room, event) is Nothing <==> event !is MediaData && event
            !is KeyframeRequest,
        event_outcome(in_room, event) matches EventOutcome::Event(e) ==> (match e {
            SessionEvent::MediaData(d) => event == RtcEvent::<F, K>::MediaData(d),
            SessionEvent::KeyframeRequest(d) => event == RtcEvent::<F, K>::KeyframeRequest(d),
        }),
{
}

/// Every packet that the engine puts out is to be sent, in order, and nothing else is; and the time
/// to wake the engine at is the last that it named.
pub proof fn law_packets_and_times_are_kept<F, K>(
    transmits: Seq<Transmit>,
    next: Option<u64>,
    output: RtcOutput<F, K>,
    in_room: bool,
    now: u64,
)
    ensures
        transmits.is_prefix_of(drained_transmits(transmits, output)),
        output matches RtcOutput::Transmit(t) ==> drained_transmits(transmits, output).len()
            == transmits.len() + 1 && drained_transmits(transmits, output).last() == t,
        output !is Transmit ==> drained_transmits(transmits, output) == transmits,
        output matches RtcOutput::Timeout(at) ==> drained_timeout(next, output) == Some(at),
        output !is Timeout ==> drained_timeout(next, output) == next,
        drain_step(in_room, output, now) is Wake <==> (output matches RtcOutput::Timeout(at) && at
            <= now),
        output is Transmit ==> drain_step(in_room, output, now) is Poll,
{
}

/// A session ends by what its engine puts out exactly where the connection is lost, or the engine
/// fails.
pub proof fn law_sessions_end<F, K>(output: RtcOutput<F, K>)
    ensures
        output_ends(output) <==> {
            ||| output is Error
            ||| output matches RtcOutput::Event(RtcEvent::IceConnectionStateChange { disconnected })
                && disconnected
        },
        output matches RtcOutput::Event(event) ==> (event_ends(event) <==> output_ends(output)),
{
}

/// A session is alive as long as neither it nor its engine has ended.
pub proof fn law_alive(s: Session<str0m::Rtc>)
    ensures
        !s.alive ==> !is_session_alive(s),
        !engine::is_working(s.rtc) ==> !is_session_alive(s),
        s.alive && engine::is_working(s.rtc) ==> is_session_alive(s),
{
}

/// The address that peers are told has the port that is listened at. A host that listens at one
/// address is reached there, and one that listens at all of them is reached by default.
pub proof fn law_address_to_be_reached_by(local: HostAddr, default_ip: HostIp)
    ensures
        candidate_addr(local, default_ip).port == local.port,
        local.ip != HostIp::V4(0) && local.ip != HostIp::V6(0) ==> candidate_addr(
            local,
            default_ip,
        ) == local,
        local.ip == HostIp::V4(0) || local.ip == HostIp::V6(0) ==> candidate_addr(
            local,
            default_ip,
        ).ip == default_ip,
{
}

/// What is asked about an offer is the offer in its text, of an engine that tells its peer this
/// host's address; who asked, and for which room and role, is kept. What is refused is refused in
/// words that tell whether the text or the address is at fault.
pub proof fn law_offers_keep_what_is_asked(
    request_id: Seq<char>,
    from_addr: Seq<char>,
    to_addr: Seq<char>,
    sdp_json: Seq<char>,
    addr: HostAddr,
    room: Option<String>,
    role: Option<Role>,
    r: Result<(PendingOffer<str0m::Rtc>, str0m::change::SdpOffer), String>,
)
    requires
        is_offer_outcome(request_id, from_addr, to_addr, sdp_json, addr, room, role, r),
    ensures
        match r {
            Ok((pending, offer)) => {
                &&& engine::is_reading(sdp_json, Ok(offer))
                &&& engine::is_working(pending.rtc)
                &&& engine::local_addresses(pending.rtc).len() == 1
                &&& engine::local_addresses(pending.rtc)[0] == addr
                &&& pending.request_id@ == request_id
                &&& pending.from_addr@ == from_addr
                &&& pending.to_addr@ == to_addr
                &&& pending.room == room
                &&& pending.role == role
            },
            Err(words) => {
                &&& engine::spells_offer(sdp_json) ==> engine::candidate_of(addr) is Err && words@
                    == "invalid candidate: "@ + engine::candidate_of(addr)->Err_0
                &&& !engine::spells_offer(sdp_json) ==> exists|e: Seq<char>|
                    engine::is_reading(sdp_json, Err(e)) && words@ == #[trigger] (
                    "invalid SDP offer JSON: "@ + e)
            },
        },
{
    let read = choose|read: Result<str0m::change::SdpOffer, Seq<char>>|
        {
            &&& #[trigger] engine::is_reading(sdp_json, read)
            &&& read is Ok <==> engine::spells_offer(sdp_json)
            &&& is_offer_step(request_id, from_addr, to_addr, read, addr, room, role, r)
        };
    if let Err(words) = r {
        if !engine::spells_offer(sdp_json) {
            let e = read->Err_0;
            assert(engine::is_reading(sdp_json, Err(e)) && words@ == "invalid SDP offer JSON: "@ + e);
        }
    }
}

/// An offer becomes a session exactly where the engine answers and the answer has a text. The
/// session then has the engine that was asked and everything that was asked for, starts without
/// media lines, and the message carries the answer's text; otherwise the words end in the engine's.
pub proof fn law_answered_offers_become_sessions(
    pending: PendingOffer<str0m::Rtc>,
    answer: Result<str0m::change::SdpAnswer, String>,
    r: Result<OfferResult<str0m::Rtc>, String>,
)
    requires
        is_offer_result(pending, answer, r),
    ensures
        r is Ok <==> answer is Ok && engine::answer_text(answer->Ok_0) is Ok,
        match r {
            Ok(result) => {
                &&& result.session.rtc == pending.rtc
                &&& result.session.id@ == pending.request_id@
                &&& result.session.from_addr@ == pending.from_addr@
                &&& result.session.room == pending.room
                &&& result.session.role == pending.role
                &&& result.session.alive
                &&& forall|kind: MediaKind|
                    #[trigger] mid_of(result.session.mid_by_kind@, kind) is None
                &&& Ok::<Seq<char>, Seq<char>>(result.answer_msg@.body) == engine::answer_text(
                    answer->Ok_0,
                )
                &&& message::header(result.answer_msg@, "reply-to"@) == Some(pending.request_id@)
                &&& message::header(result.answer_msg@, "to"@) == Some(pending.from_addr@)
                &&& message::header(result.answer_msg@, "from"@) == Some(pending.to_addr@)
            },
            Err(words) => match answer {
                Err(e) => words@ == "accept_offer failed: "@ + e@,
                Ok(a) => words@ == "serialize answer: "@ + engine::answer_text(a)->Err_0,
            },
        },
{
    if let Ok(result) = r {
        law_answer_reaches_its_sender(
            pending.request_id@,
            pending.from_addr@,
            pending.to_addr@,
            result.answer_msg@.body,
        );
    }
}

/// The words on an offer that is not answered end in what the engine said, and start with what
/// failed.
pub proof fn law_offer_errors_tell_their_cause(e: OfferError)
    ensures
        match e {
            OfferError::Json(s) => offer_error_text(e) == "invalid SDP offer JSON: "@ + s@,
            OfferError::Candidate(s) => offer_error_text(e) == "invalid candidate: "@ + s@,
            OfferError::Accept(s) => offer_error_text(e) == "accept_offer failed: "@ + s@,
            OfferError::Answer(s) => offer_error_text(e) == "serialize answer: "@ + s@,
        },
{
}

/// Two sessions that are the same but for their media lines and whether they are alive agree on
/// everything else.
pub proof fn law_same_sessions<R>(a: Session<R>, b: Session<R>)
    requires
        same_session(a, b),
    ensures
        a.mid_by_kind == b.mid_by_kind && a.alive == b.alive ==> a == b,
{
}

/// The media lines that are told are those that are held, and a reading of an offer is told as it
/// came.
pub proof fn law_lines_say_what_they_hold(
    mids: MidMap,
    read: Result<str0m::change::SdpOffer, String>,
)
    ensures
        mids@.audio == text::text_option(mids.audio),
        mids@.video == text::text_option(mids.video),
        read matches Ok(offer) ==> reading(read) == Ok::<str0m::change::SdpOffer, Seq<char>>(offer),
        read matches Err(e) ==> reading(read) == Err::<str0m::change::SdpOffer, Seq<char>>(e@),
{
}

} // verus!
