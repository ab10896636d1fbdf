//! The WebRTC engine behind a session.
use vstd::prelude::*;

verus! {

/// An IP address, by its number in network byte order.
#[derive(Debug, Clone, Copy, PartialEq, Eq, Structural)]
pub enum HostIp {
    V4(u32),
    V6(u128),
}

/// A socket address of this host.
#[derive(Debug, Clone, Copy, PartialEq, Eq, Structural)]
pub struct HostAddr {
    pub ip: HostIp,
    pub port: u16,
}

/// The address that stands for every address of this host: `0.0.0.0` or `::`.
pub open spec fn is_unspecified_ip(ip: HostIp) -> bool {
    match ip {
        HostIp::V4(n) => n == 0,
        HostIp::V6(n) => n == 0,
    }
}

/// An address that peers can be told to reach this host by: not unspecified and not multicast, and
/// for IPv4 neither link-local (169.254.0.0/16) nor broadcast (255.255.255.255).
pub open spec fn is_reachable_ip(ip: HostIp) -> bool {
    match ip {
        HostIp::V4(n) => n != 0 && n / 0x1_0000 != 0xA9FE && n != 0xFFFF_FFFF && n / 0x1000_0000
            != 0xE,
        HostIp::V6(n) => n != 0 && n / 0x1_00000000_00000000_00000000_000000 != 0xFF,
    }
}

/// An engine instance of the crate `str0m`.
#[verifier::external_type_specification]
#[verifier::external_body]
pub struct ExRtc(str0m::Rtc);

/// An offer of the crate `str0m`.
#[verifier::external_type_specification]
#[verifier::external_body]
pub struct ExSdpOffer(str0m::change::SdpOffer);

/// An answer of the crate `str0m`.
#[verifier::external_type_specification]
#[verifier::external_body]
pub struct ExSdpAnswer(str0m::change::SdpAnswer);

/// An ICE candidate of the crate `str0m`.
#[verifier::external_type_specification]
#[verifier::external_body]
pub struct ExCandidate(str0m::Candidate);

/// Whether an engine instance still works.
pub uninterp spec fn is_working(rtc: str0m::Rtc) -> bool;

/// Whether a text spells an offer in JSON.
pub uninterp spec fn spells_offer(text: Seq<char>) -> bool;

/// What reading an offer from a text may give: an offer, or words on what is wrong with the text.
pub uninterp spec fn is_reading(
    text: Seq<char>,
    read: Result<str0m::change::SdpOffer, Seq<char>>,
) -> bool;

/// The JSON text of an answer, or why it has none.
pub uninterp spec fn answer_text(answer: str0m::change::SdpAnswer) -> Result<Seq<char>, Seq<char>>;

/// The candidate by which a host at an address is reached, or what is wrong with the address.
pub uninterp spec fn candidate_of(addr: HostAddr) -> Result<str0m::Candidate, Seq<char>>;

/// The address of a candidate.
pub uninterp spec fn address_of(candidate: str0m::Candidate) -> HostAddr;

/// The addresses by which an engine instance tells its peer to reach it.
pub uninterp spec fn local_addresses(rtc: str0m::Rtc) -> Seq<HostAddr>;

/// A candidate that stands for a socket of this host.
pub open spec fn is_host_candidate(candidate: str0m::Candidate) -> bool {
    exists|addr: HostAddr|
        #[trigger] candidate_of(addr) == Ok::<str0m::Candidate, Seq<char>>(candidate)
}

/// `str0m::Rtc::is_alive` reads whether an instance works, and nothing else.
pub assume_specification [str0m::Rtc::is_alive](rtc: &str0m::Rtc) -> (r: bool)
    ensures
        r == is_working(*rtc),
;

/// A new instance by `str0m::Rtc::new`, whose clock starts now. Claimed of it: it works, and knows
/// no address. Its keys and credentials are left to chance.
#[verifier::external_body]
pub(crate) fn new_rtc() -> (r: str0m::Rtc)
    ensures
        is_working(r),
        local_addresses(r) == Seq::<HostAddr>::empty(),
{
    str0m::Rtc::new(std::time::Instant::now())
}

/// Reads an offer with `serde_json::from_str`. Claimed of it: what comes back is a reading of the
/// text, and the text alone decides whether it is an offer. Nothing is claimed of two readings of
/// one text: the order of some parameters in an offer is left to chance, and the words of an error
/// may tell where in memory the text stands.
#[verifier::external_body]
pub(crate) fn read_offer(text: &str) -> (r: Result<str0m::change::SdpOffer, String>)
    ensures
        is_reading(
            text@,
            match r {
                Ok(offer) => Ok(offer),
                Err(e) => Err(e@),
            },
        ),
        r is Ok <==> spells_offer(text@),
{
    serde_json::from_str(text).map_err(|e| e.to_string())
}

/// Writes an answer with `serde_json::to_string`. Claimed of it: the text, and the words of the
/// error, depend on the answer alone.
#[verifier::external_body]
pub(crate) fn write_answer(answer: &str0m::change::SdpAnswer) -> (r: Result<String, String>)
    ensures
        (match r {
            Ok(text) => Ok(text@),
            Err(e) => Err(e@),
        }) == answer_text(*answer),
{
    serde_json::to_string(answer).map_err(|e| e.to_string())
}

/// The candidate of `str0m::Candidate::host` for UDP. Claimed of it: the candidate, and the words of
/// the error, depend on the address alone; exactly an address that peers can be told to reach
/// this host by has one; and the candidate is for that address.
#[verifier::external_body]
pub(crate) fn host_candidate(addr: &HostAddr) -> (r: Result<str0m::Candidate, String>)
    ensures
        (match r {
            Ok(candidate) => Ok(candidate),
            Err(e) => Err(e@),
        }) == candidate_of(*addr),
        r is Ok <==> is_reachable_ip(addr.ip),
        r matches Ok(candidate) ==> address_of(candidate) == *addr,
{
    let addr = match addr.ip {
        HostIp::V4(n) => (n.to_be_bytes(), addr.port).into(),
        HostIp::V6(n) => (n.to_be_bytes(), addr.port).into(),
    };
    str0m::Candidate::host(addr, "udp").map_err(|e| e.to_string())
}

/// Adds a candidate with `str0m::Rtc::add_local_candidate` to an instance that knows no address.
/// Claimed of it: the instance then tells its peer of this candidate's address alone, and works as
/// it did.
#[verifier::external_body]
pub(crate) fn add_candidate(rtc: &mut str0m::Rtc, candidate: str0m::Candidate)
    requires
        local_addresses(*old(rtc)).len() == 0,
        is_host_candidate(candidate),
    ensures
        local_addresses(*final(rtc)) == seq![address_of(candidate)],
        is_working(*final(rtc)) == is_working(*old(rtc)),
{
    rtc.add_local_candidate(candidate);
}

/// A host can be told of at its private and its own addresses, but not at the one that stands for
/// all, nor where many or none listen.
pub proof fn law_reachable(n: u32)
    ensures
        n / 0x100_0000 == 10 ==> is_reachable_ip(HostIp::V4(n)),
        n / 0x100_0000 == 127 ==> is_reachable_ip(HostIp::V4(n)),
        n / 0x1_0000 == 0xC0A8 ==> is_reachable_ip(HostIp::V4(n)),
        n / 0x1_0000 == 0xA9FE ==> !is_reachable_ip(HostIp::V4(n)),
        0xE000_0000 <= n < 0xF000_0000 ==> !is_reachable_ip(HostIp::V4(n)),
        !is_reachable_ip(HostIp::V4(0)),
        !is_reachable_ip(HostIp::V4(0xFFFF_FFFF)),
        !is_reachable_ip(HostIp::V6(0)),
        is_reachable_ip(HostIp::V6(1)),
        is_unspecified_ip(HostIp::V4(n)) <==> n == 0,
        forall|m: u128| #[trigger] is_unspecified_ip(HostIp::V6(m)) <==> m == 0,
{
}

} // verus!
