//! Session descriptions: where a call's media is announced to come from, and where
//! both sides are told to send it.

use regex::Regex;
use std::sync::Arc;
use vstd::prelude::*;
use vstd::utf8::{decode_utf8, encode_utf8, valid_utf8};

use crate::addr::PeerAddr;
use crate::config::AppConfig;
use crate::rtp::engine::{RelayGrant, RtpEngine};
use crate::sip::packet::SipPacket;
use crate::text::{
    begins_with, decimal_text, first_word_range, line_end, parse_u16, to_chars, trim_range,
};

verus! {

/// The lines of a session description that announce a separate RTCP port.
pub const RTCP_LINE: &'static str = r"(?m)^a=rtcp:.*\r\n";

/// A compiled regular expression, `regex::Regex`.
#[verifier::external_type_specification]
#[verifier::external_body]
pub struct ExRegex(regex::Regex);

/// The regular expression that a pattern compiles to: what `Regex::new` gives.
pub uninterp spec fn compiled_regex(pattern: Seq<char>) -> Regex;

/// The characters of a byte string, where what is not UTF-8 stands as U+FFFD: what
/// `String::from_utf8_lossy` gives.
pub uninterp spec fn lossy_text(bytes: Seq<u8>) -> Seq<char>;

/// `regex::Regex::new`, on the one pattern that is used here, which is valid: its
/// result is the expression that the pattern compiles to. An invalid pattern would
/// panic.
#[verifier::external_body]
fn compile_rtcp_line(pattern: &str) -> (regex: Regex)
    requires
        pattern@ == RTCP_LINE@,
    ensures
        regex == compiled_regex(pattern@),
{
    Regex::new(pattern).unwrap()
}

/// `regex::Regex::replace_all` with nothing as the replacement, for the one
/// expression that is used here. In multi-line mode `^` stands at the beginning of
/// every line, and `.*` runs to the end of the line but not over its line feed, so a
/// match is a whole line that begins with `a=rtcp:` and ends with a carriage return
/// and a line feed. All such lines are gone, and the rest is as it was.
#[verifier::external_body]
fn erase_rtcp_lines(regex: &Regex, text: &str) -> (cleaned: String)
    requires
        *regex == compiled_regex(RTCP_LINE@),
    ensures
        cleaned@ == without_rtcp_lines(text@),
{
    regex.replace_all(text, "").into_owned()
}

/// `String::from_utf8_lossy`: the name for its result, and that valid UTF-8 is
/// decoded as it is.
#[verifier::external_body]
fn decode_lossy(bytes: &[u8]) -> (text: String)
    ensures
        text@ == lossy_text(bytes@),
        valid_utf8(bytes@) ==> text@ == decode_utf8(bytes@),
{
    String::from_utf8_lossy(bytes).into_owned()
}

/// Whether a line, with its line feed, is one that `RTCP_LINE` describes.
pub open spec fn rtcp_line(line: Seq<char>) -> bool {
    &&& "a=rtcp:"@.is_prefix_of(line)
    &&& line.len() >= "a=rtcp:"@.len() + 2
    &&& line[line.len() - 2] == '\r'
    &&& line.last() == '\n'
}

/// The length of the first line of a text, with its line feed if it has one.
pub open spec fn first_line_len(text: Seq<char>) -> nat {
    let n = crate::text::first_break(text);
    if n < text.len() {
        n + 1
    } else {
        text.len()
    }
}

/// A text without the lines that announce a separate RTCP port.
pub open spec fn without_rtcp_lines(text: Seq<char>) -> Seq<char>
    decreases text.len(),
{
    if text.len() == 0 {
        Seq::empty()
    } else {
        let n = first_line_len(text) as int;
        let rest = without_rtcp_lines(text.skip(n));
        if rtcp_line(text.take(n)) {
            rest
        } else {
            text.take(n) + rest
        }
    }
}

/// The IPv4 address that a description announces, as text: the last `c=IN IP4` line
/// decides.
pub open spec fn announced_ip(text: Seq<char>) -> Seq<char> {
    match crate::text::last_value(crate::text::lines(text), "c=IN IP4 "@) {
        Some(value) => crate::text::trimmed(value),
        None => "0.0.0.0"@,
    }
}

/// The audio port that a description announces: the last `m=audio` line decides. Zero
/// if there is none or it is no port.
pub open spec fn announced_port(text: Seq<char>) -> u16 {
    match crate::text::last_value(crate::text::lines(text), "m=audio "@) {
        Some(value) => match crate::text::parsed_u16(crate::text::first_word(value)) {
            Some(port) => port,
            None => 0,
        },
        None => 0,
    }
}

/// The endpoint that a description announces, as text. A zero port or the address
/// 0.0.0.0 announces nothing.
pub open spec fn announced_endpoint(text: Seq<char>) -> Option<Seq<char>> {
    if announced_port(text) > 0 && announced_ip(text) != "0.0.0.0"@ {
        Some(announced_ip(text) + ":"@ + crate::text::decimal(announced_port(text) as nat))
    } else {
        None
    }
}

/// What a description announces.
pub struct Announcement {
    /// The address, as text.
    pub ip: String,
    pub port: u16,
}

/// Reads what a session description announces.
pub fn read_announcement(text: &str) -> (announcement: Announcement)
    ensures
        announcement.ip@ == announced_ip(text@),
        announcement.port == announced_port(text@),
{
    let chars = to_chars(text);
    let ip_prefix = to_chars("c=IN IP4 ");
    let port_prefix = to_chars("m=audio ");
    let ghost lines = crate::text::lines(text@);
    let ghost mut done: Seq<Seq<char>> = Seq::empty();
    let mut ip: Option<(usize, usize)> = None;
    let mut port: u16 = 0;
    let mut start: usize = 0;
    let mut more = true;
    assert(text@.skip(0) =~= text@);
    assert(done + lines =~= lines);
    while more
        invariant
            chars@ == text@,
            ip_prefix@ == "c=IN IP4 "@,
            port_prefix@ == "m=audio "@,
            lines == crate::text::lines(text@),
            start <= chars.len(),
            more ==> lines == done + crate::text::lines(text@.skip(start as int)),
            !more ==> lines == done,
            match (crate::text::last_value(done, "c=IN IP4 "@), ip) {
                (Some(value), Some((from, to))) => {
                    &&& from <= to <= chars.len()
                    &&& text@.subrange(from as int, to as int) == crate::text::trimmed(value)
                },
                (None, None) => true,
                _ => false,
            },
            port == match crate::text::last_value(done, "m=audio "@) {
                Some(value) => match crate::text::parsed_u16(crate::text::first_word(value)) {
                    Some(port) => port,
                    None => 0,
                },
                None => 0,
            },
        decreases
            chars.len() - start + if more {
                1int
            } else {
                0int
            },
    {
        let end = line_end(chars.as_slice(), start);
        let ghost rest = text@.skip(start as int);
        let ghost line = text@.subrange(start as int, end as int);
        assert(rest.take(end - start) =~= line);
        proof {
            assert(done.push(line).drop_last() =~= done);
            assert(done.push(line).last() == line);
        }
        if begins_with(chars.as_slice(), start, end, ip_prefix.as_slice()) {
            let from = start + ip_prefix.len();
            assert(line.skip(ip_prefix@.len() as int) =~= text@.subrange(from as int, end as int));
            ip = Some(trim_range(chars.as_slice(), from, end));
        }
        if begins_with(chars.as_slice(), start, end, port_prefix.as_slice()) {
            let from = start + port_prefix.len();
            assert(line.skip(port_prefix@.len() as int) =~= text@.subrange(
                from as int,
                end as int,
            ));
            let (first, last) = first_word_range(chars.as_slice(), from, end);
            port = match parse_u16(vstd::slice::slice_subrange(chars.as_slice(), first, last)) {
                Some(port) => port,
                None => 0,
            };
        }
        proof {
            if end < chars.len() {
                assert(rest.skip(end - start + 1) =~= text@.skip(end + 1));
                assert(done + crate::text::lines(rest) =~= done.push(line) + crate::text::lines(
                    text@.skip(end + 1),
                ));
            } else {
                assert(rest =~= line);
                assert(done + seq![line] =~= done.push(line));
            }
            done = done.push(line);
        }
        if end < chars.len() {
            start = end + 1;
        } else {
            start = end;
            more = false;
        }
    }
    let ip = match ip {
        Some((from, to)) => text.substring_char(from, to).to_owned(),
        None => "0.0.0.0".to_owned(),
    };
    Announcement { ip, port }
}

/// The endpoint that an announcement spells, if it announces one.
fn endpoint_text(announcement: &Announcement) -> (endpoint: Option<String>)
    ensures
        match endpoint {
            Some(text) => announcement.port > 0 && announcement.ip@ != "0.0.0.0"@ && text@
                == announcement.ip@ + ":"@ + crate::text::decimal(announcement.port as nat),
            None => announcement.port == 0 || announcement.ip@ == "0.0.0.0"@,
        },
{
    if announcement.port > 0 && announcement.ip != "0.0.0.0".to_owned() {
        let port = decimal_text(announcement.port as u64);
        Some(announcement.ip.clone().concat(":").concat(port.as_str()))
    } else {
        None
    }
}

/// What became of a packet's session description.
pub enum SdpOutcome {
    /// The packet belongs to no call or has no description, and is as it was.
    NoMedia,
    /// No relay could be had; the packet is as it was and must not be passed on.
    Refused,
    /// The call has a relay. `rewritten` tells whether the description now names it;
    /// otherwise it had no audio line to rewrite and is as it was.
    Relayed { grant: RelayGrant, rewritten: bool },
}

impl SdpOutcome {
    /// Whether the packet may be passed on.
    pub fn accepted(&self) -> (accepted: bool)
        ensures
            accepted == !(self is Refused),
    {
        match self {
            SdpOutcome::Refused => false,
            SdpOutcome::NoMedia | SdpOutcome::Relayed { .. } => true,
        }
    }
}

/// Whether a packet belongs to a call and carries a description.
pub open spec fn carries_media(packet: SipPacket) -> bool {
    packet.call_id is Some && packet.body@.len() > 0
}

/// Whether `peer` is what reading the announced endpoint gave: nothing is read when
/// nothing is announced.
pub open spec fn read_as<P: Fn(&str) -> Option<PeerAddr>>(
    parse_endpoint: P,
    announced: Option<Seq<char>>,
    peer: Option<PeerAddr>,
) -> bool {
    match announced {
        Some(endpoint) => exists|text: &str|
            text@ == endpoint && call_ensures(parse_endpoint, (text,), peer),
        None => peer is None,
    }
}

/// Whether `body` is what pointing a description at `ip` and `port` gave.
pub open spec fn rewritten_as<R: Fn(&[u8], &str, u16) -> Option<Vec<u8>>>(
    rewrite: R,
    description: Seq<u8>,
    ip: Seq<char>,
    port: u16,
    body: Option<Vec<u8>>,
) -> bool {
    exists|bytes: &[u8], text: &str|
        bytes@ == description && text@ == ip && call_ensures(rewrite, (bytes, text, port), body)
}

/// The bytes of a description that was pointed at a relay: without the lines that
/// announce a separate RTCP port.
pub open spec fn cleaned_body(body: Seq<u8>) -> Seq<u8> {
    encode_utf8(without_rtcp_lines(lossy_text(body)))
}

/// Whether `after` is `before` with this description in its place.
pub open spec fn body_replaced(before: SipPacket, body: Option<Vec<u8>>, after: SipPacket) -> bool {
    match body {
        None => after == before,
        Some(body) => {
            &&& after.body@ == cleaned_body(body@)
            &&& crate::sip::packet::header_views(after.headers@)
                == crate::sip::packet::with_content_length(
                crate::sip::packet::header_views(before.headers@),
                after.body@.len(),
            )
            &&& after.is_request == before.is_request
            &&& after.method == before.method
            &&& after.status_code == before.status_code
            &&& after.call_id == before.call_id
        },
    }
}

/// Handles the session descriptions of a border controller.
pub struct MediaHandler {
    config: Arc<AppConfig>,
    rtcp_regex: Regex,
}

impl MediaHandler {
    #[verifier::type_invariant]
    spec fn has_rtcp_regex(self) -> bool {
        self.rtcp_regex == compiled_regex(RTCP_LINE@)
    }

    /// The settings of the handler.
    pub closed spec fn settings(&self) -> AppConfig {
        *self.config
    }

    /// The address that the receiver of a packet is told to send media to: requests go
    /// inside, responses outside.
    pub open spec fn advertised_ip(&self, packet: SipPacket) -> Seq<char> {
        if packet.is_request {
            self.settings().sip_internal_ip@
        } else {
            self.settings().sip_public_ip@
        }
    }

    /// A handler with these settings.
    pub fn new(config: Arc<AppConfig>) -> (handler: MediaHandler)
        ensures
            handler.settings() == *config,
    {
        MediaHandler { config, rtcp_regex: compile_rtcp_line(RTCP_LINE) }
    }

    /// The endpoint that a packet's description announces, as text.
    pub fn client_endpoint(&self, packet: &SipPacket) -> (endpoint: Option<String>)
        ensures
            match endpoint {
                Some(text) => announced_endpoint(lossy_text(packet.body@)) == Some(text@),
                None => announced_endpoint(lossy_text(packet.body@)) is None,
            },
            valid_utf8(packet.body@) ==> lossy_text(packet.body@) == decode_utf8(packet.body@),
    {
        let text = decode_lossy(packet.body.as_slice());
        endpoint_text(&read_announcement(text.as_str()))
    }

    /// Puts a description that was pointed at a relay into a packet, without the lines
    /// that announce a separate RTCP port and with a Content-Length that fits. Without
    /// one the packet stays as it is.
    pub fn install_body(&self, packet: &mut SipPacket, body: Option<Vec<u8>>)
        ensures
            body_replaced(*old(packet), body, *final(packet)),
            body matches Some(bytes) ==> (valid_utf8(bytes@) ==> lossy_text(bytes@)
                == decode_utf8(bytes@)),
    {
        proof {
            use_type_invariant(self);
        }
        if let Some(body) = body {
            let text = decode_lossy(body.as_slice());
            let cleaned = erase_rtcp_lines(&self.rtcp_regex, text.as_str());
            packet.replace_body(cleaned.as_str().as_bytes_vec());
        }
    }

    /// Gives the call of a packet a relay and points the packet's description at it.
    ///
    /// `parse_endpoint` reads an address and port; `rewrite` points a description at
    /// an address and port, if it has an audio line.
    pub fn process_sdp<P, R>(
        &self,
        rtp_engine: &mut RtpEngine,
        packet: &mut SipPacket,
        parse_endpoint: P,
        rewrite: R,
    ) -> (outcome: SdpOutcome) where
        P: Fn(&str) -> Option<PeerAddr>,
        R: Fn(&[u8], &str, u16) -> Option<Vec<u8>>,

        requires
            carries_media(*old(packet)) ==> (old(rtp_engine)@.calls.dom().contains(
                old(packet).call_id->0@,
            ) || old(rtp_engine)@.start_port <= old(rtp_engine)@.end_port),
            forall|text: &str| call_requires(parse_endpoint, (text,)),
            forall|bytes: &[u8], ip: &str, port: u16| call_requires(rewrite, (bytes, ip, port)),
        ensures
            outcome is NoMedia <==> !carries_media(*old(packet)),
            carries_media(*old(packet)) && valid_utf8(old(packet).body@) ==> lossy_text(
                old(packet).body@,
            ) == decode_utf8(old(packet).body@),
            match outcome {
                SdpOutcome::NoMedia => {
                    &&& *final(packet) == *old(packet)
                    &&& final(rtp_engine)@ == old(rtp_engine)@
                },
                SdpOutcome::Refused => {
                    &&& *final(packet) == *old(packet)
                    &&& exists|peer: Option<PeerAddr>|
                        {
                            &&& read_as(
                                parse_endpoint,
                                announced_endpoint(lossy_text(old(packet).body@)),
                                peer,
                            )
                            &&& old(rtp_engine)@.answers(
                                old(packet).call_id->0@,
                                peer,
                                None,
                                final(rtp_engine)@,
                            )
                        }
                },
                SdpOutcome::Relayed { grant, rewritten } => {
                    &&& exists|peer: Option<PeerAddr>|
                        {
                            &&& read_as(
                                parse_endpoint,
                                announced_endpoint(lossy_text(old(packet).body@)),
                                peer,
                            )
                            &&& old(rtp_engine)@.answers(
                                old(packet).call_id->0@,
                                peer,
                                Some(grant),
                                final(rtp_engine)@,
                            )
                        }
                    &&& exists|body: Option<Vec<u8>>|
                        {
                            &&& rewritten_as(
                                rewrite,
                                old(packet).body@,
                                self.advertised_ip(*old(packet)),
                                grant.on_port(),
                                body,
                            )
                            &&& rewritten == (body is Some)
                            &&& body_replaced(*old(packet), body, *final(packet))
                            &&& body matches Some(bytes) ==> (valid_utf8(bytes@) ==> lossy_text(
                                bytes@,
                            ) == decode_utf8(bytes@))
                        }
                },
            },
    {
        let call_id = match &packet.call_id {
            Some(call_id) => call_id.clone(),
            None => return SdpOutcome::NoMedia,
        };
        if packet.body.len() == 0 {
            return SdpOutcome::NoMedia;
        }
        let peer = match self.client_endpoint(packet) {
            Some(endpoint) => {
                let text = endpoint.as_str();
                let peer = parse_endpoint(text);
                assert(call_ensures(parse_endpoint, (text,), peer));
                peer
            },
            None => None,
        };
        assert(read_as(parse_endpoint, announced_endpoint(lossy_text(packet.body@)), peer));
        let grant = match rtp_engine.get_or_allocate_relay(call_id.as_str(), peer) {
            Some(grant) => grant,
            None => return SdpOutcome::Refused,
        };
        let advertised = if packet.is_request {
            self.config.sip_internal_ip.as_str()
        } else {
            self.config.sip_public_ip.as_str()
        };
        let description = packet.body.as_slice();
        let port = grant.port();
        let body = rewrite(description, advertised, port);
        assert(call_ensures(rewrite, (description, advertised, port), body));
        assert(rewritten_as(
            rewrite,
            old(packet).body@,
            self.advertised_ip(*old(packet)),
            port,
            body,
        ));
        let rewritten = body.is_some();
        self.install_body(packet, body);
        SdpOutcome::Relayed { grant, rewritten }
    }
}

/// What a description announces is decided by its last connection line and its last
/// audio line: a line that is joined on decides what it speaks of and nothing else.
pub proof fn law_last_line_decides(text: Seq<char>, line: Seq<char>)
    requires
        crate::text::first_break(line) == line.len(),
    ensures
        ({
            let longer = text + seq!['\n'] + line;
            &&& announced_ip(longer) == if "c=IN IP4 "@.is_prefix_of(line) {
                crate::text::trimmed(line.skip("c=IN IP4 "@.len() as int))
            } else {
                announced_ip(text)
            }
            &&& announced_port(longer) == if "m=audio "@.is_prefix_of(line) {
                match crate::text::parsed_u16(
                    crate::text::first_word(line.skip("m=audio "@.len() as int)),
                ) {
                    Some(port) => port,
                    None => 0,
                }
            } else {
                announced_port(text)
            }
        }),
{
    crate::text::lemma_lines_of_joined(text, line);
    assert(crate::text::lines(text).push(line).drop_last() =~= crate::text::lines(text));
}

/// A description that is on hold (address 0.0.0.0) or declines audio (port zero)
/// announces no endpoint.
pub proof fn law_hold_announces_nothing(text: Seq<char>)
    requires
        announced_ip(text) == "0.0.0.0"@ || announced_port(text) == 0,
    ensures
        announced_endpoint(text) is None,
{
}

/// Whether none of the lines of a text announces a separate RTCP port.
pub open spec fn rtcp_free(text: Seq<char>) -> bool
    decreases text.len(),
{
    text.len() == 0 || {
        let n = first_line_len(text) as int;
        !rtcp_line(text.take(n)) && rtcp_free(text.skip(n))
    }
}

/// Whether a text is one line with its line feed.
pub open spec fn is_whole_line(line: Seq<char>) -> bool {
    line.len() > 0 && crate::text::first_break(line) == line.len() - 1
}

/// What follows a line does not change where the line ends.
proof fn lemma_line_ends_at_its_feed(line: Seq<char>, rest: Seq<char>)
    requires
        is_whole_line(line),
    ensures
        first_line_len(line + rest) == line.len(),
        (line + rest).take(line.len() as int) == line,
        (line + rest).skip(line.len() as int) == rest,
    decreases line.len(),
{
    assert((line + rest).take(line.len() as int) =~= line);
    assert((line + rest).skip(line.len() as int) =~= rest);
    if line.len() > 1 {
        assert((line + rest).skip(1) =~= line.skip(1) + rest);
        lemma_line_ends_at_its_feed(line.skip(1), rest);
    }
}

/// The first line of a text with a line feed is a whole line.
proof fn lemma_first_line_is_whole(text: Seq<char>)
    requires
        crate::text::first_break(text) < text.len(),
    ensures
        is_whole_line(text.take(first_line_len(text) as int)),
    decreases text.len(),
{
    let n = first_line_len(text) as int;
    if text[0] != '\n' {
        lemma_first_line_is_whole(text.skip(1));
        assert(text.take(n).skip(1) =~= text.skip(1).take(n - 1));
    }
}

/// Lines are judged one by one: a whole line is dropped or kept by itself, and what
/// follows it is cleaned as if it stood alone.
pub proof fn law_lines_are_judged_one_by_one(line: Seq<char>, rest: Seq<char>)
    requires
        is_whole_line(line),
    ensures
        without_rtcp_lines(line + rest) == if rtcp_line(line) {
            without_rtcp_lines(rest)
        } else {
            line + without_rtcp_lines(rest)
        },
{
    lemma_line_ends_at_its_feed(line, rest);
}

/// No line of a cleaned description announces a separate RTCP port.
pub proof fn law_cleaning_leaves_no_rtcp_line(text: Seq<char>)
    ensures
        rtcp_free(without_rtcp_lines(text)),
    decreases text.len(),
{
    if text.len() > 0 {
        let n = first_line_len(text) as int;
        let line = text.take(n);
        let rest = without_rtcp_lines(text.skip(n));
        law_cleaning_leaves_no_rtcp_line(text.skip(n));
        if !rtcp_line(line) {
            if crate::text::first_break(text) < text.len() {
                lemma_first_line_is_whole(text);
                lemma_line_ends_at_its_feed(line, rest);
            } else {
                assert(line + rest =~= text);
                assert(rtcp_free(text.skip(n)));
            }
        }
    }
}

/// A description without such lines is left as it is.
pub proof fn law_cleaning_spares_other_lines(text: Seq<char>)
    requires
        rtcp_free(text),
    ensures
        without_rtcp_lines(text) == text,
    decreases text.len(),
{
    if text.len() > 0 {
        let n = first_line_len(text) as int;
        law_cleaning_spares_other_lines(text.skip(n));
        assert(text.take(n) + text.skip(n) =~= text);
    }
}

/// Cleaning a description again changes nothing.
pub proof fn law_cleaning_is_idempotent(text: Seq<char>)
    ensures
        without_rtcp_lines(without_rtcp_lines(text)) == without_rtcp_lines(text),
{
    law_cleaning_leaves_no_rtcp_line(text);
    law_cleaning_spares_other_lines(without_rtcp_lines(text));
}

/// The relay is announced by direction alone. For every request the description is pointed
/// at the inside address of the settings, and for every response, whatever its status code,
/// at the public one; the description that is rewritten is the packet's own, and the port
/// is that of the call's relay.
pub proof fn law_direction_decides_the_address<P, R>(
    handler: &MediaHandler,
    rtp_engine: &mut RtpEngine,
    packet: &mut SipPacket,
    parse_endpoint: P,
    rewrite: R,
    outcome: SdpOutcome,
) where P: Fn(&str) -> Option<PeerAddr>, R: Fn(&[u8], &str, u16) -> Option<Vec<u8>>
    requires
        call_ensures(
            MediaHandler::process_sdp::<P, R>,
            (handler, rtp_engine, packet, parse_endpoint, rewrite),
            outcome,
        ),
        outcome is Relayed,
    ensures
        exists|bytes: &[u8], ip: &str, body: Option<Vec<u8>>|
            {
                &&& #[trigger] call_ensures(
                    rewrite,
                    (bytes, ip, outcome->grant.on_port()),
                    body,
                )
                &&& bytes@ == old(packet).body@
                &&& old(packet).is_request ==> ip@ == handler.settings().sip_internal_ip@
                &&& !old(packet).is_request ==> ip@ == handler.settings().sip_public_ip@
                &&& outcome->rewritten == (body is Some)
                &&& body is None ==> *final(packet) == *old(packet)
                &&& body matches Some(new) ==> final(packet).body@ == encode_utf8(
                    without_rtcp_lines(lossy_text(new@)),
                )
            },
        handler.advertised_ip(*old(packet)) == if old(packet).is_request {
            handler.settings().sip_internal_ip@
        } else {
            handler.settings().sip_public_ip@
        },
{
    let port = outcome->grant.on_port();
    let ip = handler.advertised_ip(*old(packet));
    let body = choose|body: Option<Vec<u8>>|
        {
            &&& rewritten_as(rewrite, old(packet).body@, ip, port, body)
            &&& outcome->rewritten == (body is Some)
            &&& body_replaced(*old(packet), body, *final(packet))
        };
    let (bytes, text) = choose|bytes: &[u8], text: &str|
        bytes@ == old(packet).body@ && text@ == ip && call_ensures(
            rewrite,
            (bytes, text, port),
            body,
        );
    assert(call_ensures(rewrite, (bytes, text, port), body));
}

/// Two packets of one call, a request and a response in either order, are pointed at the
/// same relay port.
pub proof fn law_both_directions_share_the_relay<P, R>(
    handler: &MediaHandler,
    rtp_engine: &mut RtpEngine,
    packet: &mut SipPacket,
    parse_endpoint: P,
    rewrite: R,
    first: SdpOutcome,
    later: &mut RtpEngine,
    answer: &mut SipPacket,
    second: SdpOutcome,
) where P: Fn(&str) -> Option<PeerAddr>, R: Fn(&[u8], &str, u16) -> Option<Vec<u8>>
    requires
        call_ensures(
            MediaHandler::process_sdp::<P, R>,
            (handler, rtp_engine, packet, parse_endpoint, rewrite),
            first,
        ),
        first is Relayed,
        later@ == final(rtp_engine)@,
        answer.call_id is Some && answer.call_id->0@ == packet.call_id->0@,
        answer.body@.len() > 0,
        call_ensures(
            MediaHandler::process_sdp::<P, R>,
            (handler, later, answer, parse_endpoint, rewrite),
            second,
        ),
    ensures
        second is Relayed,
        second->grant == (RelayGrant::Existing { port: first->grant.on_port() }),
        final(later)@ == final(rtp_engine)@,
{
}

/// A packet takes part in media if it belongs to a call and has a body, and is otherwise
/// left alone, with the relays. Of a packet that takes part, the outcome tells whether a
/// relay could be had: a call that has one is never refused, a refused packet is left
/// alone, with the relays, and any other leaves its call with a relay on the port that the
/// outcome names.
pub proof fn law_media_needs_call_and_body<P, R>(
    handler: &MediaHandler,
    rtp_engine: &mut RtpEngine,
    packet: &mut SipPacket,
    parse_endpoint: P,
    rewrite: R,
    outcome: SdpOutcome,
) where P: Fn(&str) -> Option<PeerAddr>, R: Fn(&[u8], &str, u16) -> Option<Vec<u8>>
    requires
        call_ensures(
            MediaHandler::process_sdp::<P, R>,
            (handler, rtp_engine, packet, parse_endpoint, rewrite),
            outcome,
        ),
    ensures
        outcome is NoMedia <==> old(packet).call_id is None || old(packet).body@.len() == 0,
        !(outcome is Relayed) ==> *final(packet) == *old(packet) && final(rtp_engine)@
            == old(rtp_engine)@,
        outcome is Refused ==> !old(rtp_engine)@.calls.dom().contains(old(packet).call_id->0@),
        outcome matches SdpOutcome::Relayed { grant, .. } ==> final(rtp_engine)@.calls.get(
            old(packet).call_id->0@,
        ) == Some(grant.on_port()),
{
}

/// A packet is refused only when its call has no port and a thousand draws from the whole
/// range gave none: each was an odd end of the range or stood for a port with a relay.
pub proof fn law_refusal_means_no_port_was_drawn<P, R>(
    handler: &MediaHandler,
    rtp_engine: &mut RtpEngine,
    packet: &mut SipPacket,
    parse_endpoint: P,
    rewrite: R,
    outcome: SdpOutcome,
) where P: Fn(&str) -> Option<PeerAddr>, R: Fn(&[u8], &str, u16) -> Option<Vec<u8>>
    requires
        call_ensures(
            MediaHandler::process_sdp::<P, R>,
            (handler, rtp_engine, packet, parse_endpoint, rewrite),
            outcome,
        ),
        outcome is Refused,
    ensures
        exists|draws: Seq<u16>|
            {
                &&& #[trigger] draws.len() == 1000
                &&& forall|i: int| 0 <= i < 1000 ==> old(rtp_engine)@.drew(i, #[trigger] draws[i])
                &&& forall|i: int|
                    0 <= i < 1000 ==> {
                        let drawn = #[trigger] draws[i];
                        let relays = old(rtp_engine)@.relays.dom();
                        &&& drawn % 2 == 0 || drawn == 65535 ==> relays.contains(drawn)
                        &&& drawn % 2 == 1 && drawn < 65535 ==> drawn == old(rtp_engine)@.end_port
                            || relays.contains((drawn + 1) as u16)
                    }
            },
{
    let table = old(rtp_engine)@;
    let call_id = old(packet).call_id->0@;
    let peer = choose|peer: Option<PeerAddr>|
        {
            &&& read_as(
                parse_endpoint,
                announced_endpoint(lossy_text(old(packet).body@)),
                peer,
            )
            &&& table.answers(call_id, peer, None, final(rtp_engine)@)
        };
    let draws = choose|draws: Seq<u16>|
        table.allocates(call_id, peer, draws, None, final(rtp_engine)@);
    assert forall|i: int| 0 <= i < 1000 implies table.drawable(#[trigger] draws[i])
        && !table.usable(draws[i]) by {}
    assert(draws.len() == 1000);
}

/// A call that had no port and is relayed got a free one of the range, and its relay is the
/// one that the outcome hands out to be started; a call that had a port is answered with
/// it, and starts nothing.
pub proof fn law_relayed_call_has_its_own_port<P, R>(
    handler: &MediaHandler,
    rtp_engine: &mut RtpEngine,
    packet: &mut SipPacket,
    parse_endpoint: P,
    rewrite: R,
    outcome: SdpOutcome,
) where P: Fn(&str) -> Option<PeerAddr>, R: Fn(&[u8], &str, u16) -> Option<Vec<u8>>
    requires
        call_ensures(
            MediaHandler::process_sdp::<P, R>,
            (handler, rtp_engine, packet, parse_endpoint, rewrite),
            outcome,
        ),
        outcome is Relayed,
    ensures
        ({
            let before = old(rtp_engine)@;
            let after = final(rtp_engine)@;
            let call_id = old(packet).call_id->0@;
            &&& before.calls.dom().contains(call_id) ==> outcome->grant == (RelayGrant::Existing {
                port: before.calls[call_id],
            }) && after == before
            &&& !before.calls.dom().contains(call_id) ==> {
                &&& outcome->grant matches RelayGrant::Started { port, relay }
                &&& before.start_port <= port <= before.end_port
                &&& port % 2 == 0 || port == 65535
                &&& !before.relays.dom().contains(port)
                &&& after.calls == before.calls.insert(call_id, port)
                &&& after.relays == before.relays.insert(
                    port,
                    crate::rtp::engine::RtpRelay { stop_signal: relay.stop_signal },
                )
            }
        }),
{
    let table = old(rtp_engine)@;
    let call_id = old(packet).call_id->0@;
    let grant = Some(outcome->grant);
    if !table.calls.dom().contains(call_id) {
        let peer = choose|peer: Option<PeerAddr>|
            {
                &&& read_as(
                    parse_endpoint,
                    announced_endpoint(lossy_text(old(packet).body@)),
                    peer,
                )
                &&& table.answers(call_id, peer, grant, final(rtp_engine)@)
            };
        let draws = choose|draws: Seq<u16>|
            table.allocates(call_id, peer, draws, grant, final(rtp_engine)@);
        assert(table.drawable(draws.last()));
    }
}

/// The relay of a new call starts from the endpoint that the description announces, as the
/// caller's parser reads it: the announced address, a colon and the announced port, and
/// nothing where the address is 0.0.0.0 or the port zero.
pub proof fn law_relay_starts_from_the_announcement<P, R>(
    handler: &MediaHandler,
    rtp_engine: &mut RtpEngine,
    packet: &mut SipPacket,
    parse_endpoint: P,
    rewrite: R,
    outcome: SdpOutcome,
) where P: Fn(&str) -> Option<PeerAddr>, R: Fn(&[u8], &str, u16) -> Option<Vec<u8>>
    requires
        call_ensures(
            MediaHandler::process_sdp::<P, R>,
            (handler, rtp_engine, packet, parse_endpoint, rewrite),
            outcome,
        ),
        outcome matches SdpOutcome::Relayed { grant, .. } && grant is Started,
    ensures
        ({
            let text = lossy_text(old(packet).body@);
            let session = outcome->grant->relay.session;
            &&& valid_utf8(old(packet).body@) ==> text == decode_utf8(old(packet).body@)
            &&& announced_port(text) == 0 || announced_ip(text) == "0.0.0.0"@
                ==> session.inside.peer is None && session.outside.peer is None
            &&& announced_port(text) != 0 && announced_ip(text) != "0.0.0.0"@ ==> exists|
                endpoint: &str,
                peer: Option<PeerAddr>,
            |
                {
                    &&& #[trigger] call_ensures(parse_endpoint, (endpoint,), peer)
                    &&& endpoint@ == announced_ip(text) + seq![':'] + crate::text::decimal(
                        announced_port(text) as nat,
                    )
                    &&& peer is None ==> session.inside.peer is None && session.outside.peer is None
                    &&& peer matches Some(addr) ==> if crate::addr::internal_ip(addr.ip) {
                        session.inside.peer == peer && session.outside.peer is None
                    } else {
                        session.outside.peer == peer && session.inside.peer is None
                    }
                }
            &&& !session.inside.latched && !session.outside.latched
        }),
{
    reveal_strlit(":");
    assert(":"@ =~= seq![':']);
    let text = lossy_text(old(packet).body@);
    let grant = outcome->grant;
    let call_id = old(packet).call_id->0@;
    let peer = choose|peer: Option<PeerAddr>|
        {
            &&& read_as(parse_endpoint, announced_endpoint(text), peer)
            &&& old(rtp_engine)@.answers(call_id, peer, Some(grant), final(rtp_engine)@)
        };
    let draws = choose|draws: Seq<u16>|
        old(rtp_engine)@.allocates(call_id, peer, draws, Some(grant), final(rtp_engine)@);
    assert(grant->relay.session == crate::rtp::session::RelaySession::initial(peer));
    if let Some(spelled) = announced_endpoint(text) {
        let endpoint = choose|endpoint: &str|
            endpoint@ == spelled && call_ensures(parse_endpoint, (endpoint,), peer);
        assert(call_ensures(parse_endpoint, (endpoint,), peer));
    }
}

/// A rewritten packet keeps what kind of packet it is and its call, has one Content-Length,
/// the last header, which reads back as the length of the body, and keeps its other
/// headers.
pub proof fn law_rewriting_keeps_the_rest<P, R>(
    handler: &MediaHandler,
    rtp_engine: &mut RtpEngine,
    packet: &mut SipPacket,
    parse_endpoint: P,
    rewrite: R,
    outcome: SdpOutcome,
) where P: Fn(&str) -> Option<PeerAddr>, R: Fn(&[u8], &str, u16) -> Option<Vec<u8>>
    requires
        call_ensures(
            MediaHandler::process_sdp::<P, R>,
            (handler, rtp_engine, packet, parse_endpoint, rewrite),
            outcome,
        ),
        outcome matches SdpOutcome::Relayed { rewritten, .. } && rewritten,
    ensures
        final(packet).is_request == old(packet).is_request,
        final(packet).method == old(packet).method,
        final(packet).status_code == old(packet).status_code,
        final(packet).call_id == old(packet).call_id,
        crate::sip::packet::header_views(final(packet).headers@)
            == crate::sip::packet::with_content_length(
            crate::sip::packet::header_views(old(packet).headers@),
            final(packet).body@.len(),
        ),
        final(packet).headers@.len() > 0,
        final(packet).headers@.last().name is ContentLength,
        crate::text::decimal_value(final(packet).headers@.last().value@)
            == final(packet).body@.len(),
{
    let after = crate::sip::packet::header_views(final(packet).headers@);
    crate::sip::packet::law_content_length_fits(
        crate::sip::packet::header_views(old(packet).headers@),
        final(packet).body@.len(),
    );
    assert(after.last() == final(packet).headers@.last()@);
}

/// Installing a body puts it into the packet without its RTCP lines, decoded as it is where
/// it is valid UTF-8, with the Content-Length that goes with it, and keeps the rest; where
/// there is none to install, everything is kept.
pub proof fn law_installed_body_is_cleaned(
    handler: &MediaHandler,
    packet: &mut SipPacket,
    body: Option<Vec<u8>>,
)
    requires
        call_ensures(MediaHandler::install_body, (handler, packet, body), ()),
    ensures
        body is None ==> *final(packet) == *old(packet),
        body matches Some(new) ==> {
            &&& final(packet).body@ == encode_utf8(without_rtcp_lines(lossy_text(new@)))
            &&& valid_utf8(new@) ==> final(packet).body@ == encode_utf8(
                without_rtcp_lines(decode_utf8(new@)),
            )
            &&& crate::sip::packet::header_views(final(packet).headers@)
                == crate::sip::packet::with_content_length(
                crate::sip::packet::header_views(old(packet).headers@),
                final(packet).body@.len(),
            )
            &&& final(packet).is_request == old(packet).is_request
            &&& final(packet).method == old(packet).method
            &&& final(packet).status_code == old(packet).status_code
            &&& final(packet).call_id == old(packet).call_id
        },
{
}

/// A line is erased if it begins with `a=rtcp:` and ends with a carriage return and a line
/// feed, and is otherwise kept to the letter; so is a last line without a line feed.
pub proof fn law_rtcp_lines_and_no_others_are_erased(line: Seq<char>, rest: Seq<char>)
    requires
        forall|i: int| 0 <= i < line.len() ==> #[trigger] line[i] != '\n',
    ensures
        without_rtcp_lines(line) == line,
        without_rtcp_lines(line + seq!['\n'] + rest) == if line.len() >= 8 && line.last() == '\r'
            && line.take(7) == seq!['a', '=', 'r', 't', 'c', 'p', ':'] {
            without_rtcp_lines(rest)
        } else {
            line + seq!['\n'] + without_rtcp_lines(rest)
        },
{
    reveal_strlit("a=rtcp:");
    assert("a=rtcp:"@ =~= seq!['a', '=', 'r', 't', 'c', 'p', ':']);
    let whole = line + seq!['\n'];
    lemma_break_after(line, seq!['\n']);
    lemma_break_after(line, Seq::empty());
    assert(line + Seq::<char>::empty() =~= line);
    law_lines_are_judged_one_by_one(whole, rest);
    if whole.len() >= 7 {
        assert(whole.subrange(0, 7) =~= whole.take(7));
        if line.len() >= 7 {
            assert(whole.take(7) =~= line.take(7));
        } else {
            assert(whole.take(7)[6] == '\n');
        }
    }
    if line.len() > 0 {
        let n = line.len() as int;
        assert(first_line_len(line) == n);
        assert(line.take(n) =~= line);
        assert(line.skip(n) =~= Seq::<char>::empty());
        assert(line.last() == line[n - 1]);
        assert(without_rtcp_lines(line.skip(n)) =~= Seq::<char>::empty());
        assert(line + Seq::<char>::empty() =~= line);
    }
}

/// Text without a line feed is passed over in looking for the first one.
proof fn lemma_break_after(line: Seq<char>, more: Seq<char>)
    requires
        forall|i: int| 0 <= i < line.len() ==> #[trigger] line[i] != '\n',
        more.len() == 0 || more[0] == '\n',
    ensures
        crate::text::first_break(line + more) == line.len(),
    decreases line.len(),
{
    if line.len() > 0 {
        let rest = line.skip(1);
        assert((line + more).skip(1) =~= rest + more);
        assert((line + more)[0] == line[0]);
        assert forall|i: int| 0 <= i < rest.len() implies #[trigger] rest[i] != '\n' by {
            assert(rest[i] == line[i + 1]);
        }
        lemma_break_after(rest, more);
    }
}

/// What one line announces: after `c=IN IP4 ` an address, which is the rest of the line
/// without white space around it, and after `m=audio ` a port, which is the first word of
/// the rest. Any other line announces the address 0.0.0.0 and no port. With
/// `law_last_line_decides` this fixes what every description announces.
pub proof fn law_one_line_announces(line: Seq<char>)
    requires
        forall|i: int| 0 <= i < line.len() ==> #[trigger] line[i] != '\n',
    ensures
        announced_ip(line) == if line.len() >= 9 && line.take(9) == seq![
            'c',
            '=',
            'I',
            'N',
            ' ',
            'I',
            'P',
            '4',
            ' ',
        ] {
            crate::text::trimmed(line.skip(9))
        } else {
            seq!['0', '.', '0', '.', '0', '.', '0']
        },
        announced_port(line) == if line.len() >= 8 && line.take(8) == seq![
            'm',
            '=',
            'a',
            'u',
            'd',
            'i',
            'o',
            ' ',
        ] {
            match crate::text::parsed_u16(crate::text::first_word(line.skip(8))) {
                Some(port) => port,
                None => 0,
            }
        } else {
            0
        },
{
    reveal_strlit("c=IN IP4 ");
    reveal_strlit("m=audio ");
    reveal_strlit("0.0.0.0");
    lemma_break_after(line, Seq::empty());
    assert(line + Seq::<char>::empty() =~= line);
    assert(crate::text::lines(line) == seq![line]);
    assert(seq![line].drop_last() =~= Seq::<Seq<char>>::empty());
    assert(seq![line].last() == line);
    assert("0.0.0.0"@ =~= seq!['0', '.', '0', '.', '0', '.', '0']);
    assert("c=IN IP4 "@ =~= seq!['c', '=', 'I', 'N', ' ', 'I', 'P', '4', ' ']);
    assert("m=audio "@ =~= seq!['m', '=', 'a', 'u', 'd', 'i', 'o', ' ']);
    if line.len() >= 9 {
        assert(line.subrange(0, 9) =~= line.take(9));
    }
    if line.len() >= 8 {
        assert(line.subrange(0, 8) =~= line.take(8));
    }
    reveal_with_fuel(crate::text::last_value, 2);
}

/// Lines that are joined on decide what they speak of, one after the other: a line with
/// another address or port overrides the lines before it, and every other line leaves both
/// as they are.
pub proof fn law_later_lines_override(text: Seq<char>, line: Seq<char>)
    requires
        forall|i: int| 0 <= i < line.len() ==> #[trigger] line[i] != '\n',
    ensures
        ({
            let longer = text + seq!['\n'] + line;
            let address = line.len() >= 9 && line.take(9) == seq![
                'c',
                '=',
                'I',
                'N',
                ' ',
                'I',
                'P',
                '4',
                ' ',
            ];
            let audio = line.len() >= 8 && line.take(8) == seq![
                'm',
                '=',
                'a',
                'u',
                'd',
                'i',
                'o',
                ' ',
            ];
            &&& announced_ip(longer) == if address {
                announced_ip(line)
            } else {
                announced_ip(text)
            }
            &&& announced_port(longer) == if audio {
                announced_port(line)
            } else {
                announced_port(text)
            }
        }),
{
    reveal_strlit("c=IN IP4 ");
    reveal_strlit("m=audio ");
    lemma_break_after(line, Seq::empty());
    assert(line + Seq::<char>::empty() =~= line);
    law_last_line_decides(text, line);
    law_one_line_announces(line);
    assert("c=IN IP4 "@ =~= seq!['c', '=', 'I', 'N', ' ', 'I', 'P', '4', ' ']);
    assert("m=audio "@ =~= seq!['m', '=', 'a', 'u', 'd', 'i', 'o', ' ']);
    if line.len() >= 9 {
        assert(line.subrange(0, 9) =~= line.take(9));
    }
    if line.len() >= 8 {
        assert(line.subrange(0, 8) =~= line.take(8));
    }
}

/// What is read of a description is what it announces, for every description.
pub proof fn law_announcements_are_read_as_made(text: &str, announcement: Announcement)
    requires
        call_ensures(read_announcement, (text,), announcement),
    ensures
        announcement.ip@ == announced_ip(text@),
        announcement.port == announced_port(text@),
{
}

/// The endpoint of a packet's description is the announced address, a colon and the
/// announced port. There is one unless the port is zero or the address is 0.0.0.0.
pub proof fn law_endpoint_is_spelled_out(
    handler: &MediaHandler,
    packet: &SipPacket,
    endpoint: Option<String>,
)
    requires
        call_ensures(MediaHandler::client_endpoint, (handler, packet), endpoint),
    ensures
        ({
            let text = lossy_text(packet.body@);
            &&& valid_utf8(packet.body@) ==> text == decode_utf8(packet.body@)
            &&& endpoint is None <==> announced_port(text) == 0 || announced_ip(text) == seq![
                '0',
                '.',
                '0',
                '.',
                '0',
                '.',
                '0',
            ]
            &&& endpoint matches Some(spelled) ==> {
                &&& spelled@.take(announced_ip(text).len() as int) == announced_ip(text)
                &&& spelled@[announced_ip(text).len() as int] == ':'
                &&& crate::text::parsed_u16(spelled@.skip(announced_ip(text).len() as int + 1))
                    == Some(announced_port(text))
                &&& spelled@ == announced_ip(text) + seq![':'] + crate::text::decimal(
                    announced_port(text) as nat,
                )
                &&& announced_endpoint(text) == Some(spelled@)
            }
        }),
{
    reveal_strlit(":");
    reveal_strlit("0.0.0.0");
    assert(":"@ =~= seq![':']);
    assert("0.0.0.0"@ =~= seq!['0', '.', '0', '.', '0', '.', '0']);
    if let Some(spelled) = endpoint {
        let text = lossy_text(packet.body@);
        let ip = announced_ip(text);
        let port = crate::text::decimal(announced_port(text) as nat);
        crate::text::law_decimal_reads_back(announced_port(text) as nat);
        assert(spelled@ == ip + ":"@ + port);
        assert(spelled@.take(ip.len() as int) =~= ip);
        assert(spelled@.skip(ip.len() as int + 1) =~= port);
    }
}

/// Every packet is passed on but a refused one.
pub proof fn law_only_refused_packets_are_held_back(outcome: SdpOutcome, accepted: bool)
    requires
        call_ensures(SdpOutcome::accepted, (&outcome,), accepted),
    ensures
        outcome is NoMedia ==> accepted,
        outcome is Relayed ==> accepted,
        outcome is Refused ==> !accepted,
{
}

/// A handler has the settings that it was made with.
pub proof fn law_handler_follows_its_settings(config: Arc<AppConfig>, handler: MediaHandler)
    requires
        call_ensures(MediaHandler::new, (config,), handler),
    ensures
        handler.settings().sip_internal_ip@ == config.sip_internal_ip@,
        handler.settings().sip_public_ip@ == config.sip_public_ip@,
        handler.settings() == *config,
{
}

} // verus!
