//! Which relay serves which call, and on which port.

use dashmap::DashMap;
use rand::Rng;
use tokio::sync::broadcast::Sender;
use vstd::prelude::*;

use crate::addr::PeerAddr;
use crate::maps::{
    call_port, has_relay, insert_call, insert_relay, new_call_map, new_relay_map, remove_call,
    remove_relay,
};
use crate::rtp::session::RelaySession;

verus! {

/// How many ports are drawn before an allocation is given up.
pub const MAX_DRAWS: u32 = 1000;

/// How many stop signals a relay's channel can hold.
pub const STOP_SIGNAL_CAPACITY: usize = 1;

/// A relay's stop channel, `tokio::sync::broadcast::Sender`. Nothing is claimed of
/// what is inside; a value of it is carried from the start of a relay to its end.
#[verifier::external_type_specification]
#[verifier::external_body]
#[verifier::reject_recursive_types(T)]
pub struct ExSender<T>(tokio::sync::broadcast::Sender<T>);

/// A running relay, as the engine sees it.
pub struct RtpRelay {
    pub stop_signal: Sender<()>,
}

impl RtpRelay {
    /// Whether the stop signal was sent on the relay's channel.
    pub closed spec fn told_to_stop(self) -> bool {
        call_ensures(send_stop, (&self.stop_signal,), ())
    }
}

/// A relay that was just given a port and has to be started: the session it runs,
/// and the channel that ends it.
pub struct StartedRelay {
    pub session: RelaySession,
    pub stop_signal: Sender<()>,
}

impl StartedRelay {
    /// Whether the relay's stop channel was opened with room for
    /// `STOP_SIGNAL_CAPACITY` signals.
    pub closed spec fn has_stop_channel(self) -> bool {
        call_ensures(open_stop_channel, (STOP_SIGNAL_CAPACITY,), self.stop_signal)
    }
}

/// The answer to a request for a relay.
pub enum RelayGrant {
    /// The call already has a relay on this port.
    Existing { port: u16 },
    /// The call got this port, and `relay` has to be started on it.
    Started { port: u16, relay: StartedRelay },
}

/// What one draw for a call leads to.
pub enum DrawOutcome {
    /// The call got the port that the number stands for.
    Granted(RelayGrant),
    /// The number is not usable, and another one may be drawn.
    DrawAgain,
    /// The number is not usable, and it was the last one to be drawn.
    GiveUp,
}

/// `rand::Rng::gen_range` on the thread's generator, over an inclusive range: some
/// number in the range. Which one is chance. An empty range would panic.
#[verifier::external_body]
fn draw_port(start: u16, end: u16) -> (port: u16)
    requires
        start <= end,
    ensures
        start <= port <= end,
{
    rand::thread_rng().gen_range(start..=end)
}

/// The draw of one attempt at an allocation: a number that was drawn from the whole
/// range for this attempt.
fn draw_for_attempt(start: u16, end: u16, attempt: u32) -> (drawn: u16)
    requires
        start <= end,
        attempt < MAX_DRAWS,
    ensures
        start <= drawn <= end,
        call_ensures(draw_port, (start, end), drawn),
{
    draw_port(start, end)
}

/// `tokio::sync::broadcast::channel`, of which only the sender is kept. Nothing is
/// claimed of the new channel. A capacity of zero, or of more than half of what a
/// `usize` can count, would panic.
#[verifier::external_body]
fn open_stop_channel(capacity: usize) -> (stop_signal: Sender<()>)
    requires
        0 < capacity <= usize::MAX / 2,
{
    tokio::sync::broadcast::channel(capacity).0
}

/// `Clone` of `tokio::sync::broadcast::Sender`: another handle of the same
/// channel, which no use tells apart from the first.
#[verifier::external_body]
fn share_stop_channel(stop_signal: &Sender<()>) -> (shared: Sender<()>)
    ensures
        shared == *stop_signal,
{
    stop_signal.clone()
}

/// `tokio::sync::broadcast::Sender::send`: wakes whoever listens on the channel.
/// Whether anyone does is not known here, so nothing is claimed of the result,
/// which is dropped.
#[verifier::external_body]
fn send_stop(stop_signal: &Sender<()>) {
    let _ = stop_signal.send(());
}

impl RelayGrant {
    /// The port of the relay.
    pub open spec fn on_port(self) -> u16 {
        match self {
            RelayGrant::Existing { port } => port,
            RelayGrant::Started { port, .. } => port,
        }
    }

    /// The port of the relay.
    pub fn port(&self) -> (port: u16)
        ensures
            port == self.on_port(),
    {
        match self {
            RelayGrant::Existing { port } => *port,
            RelayGrant::Started { port, .. } => *port,
        }
    }
}

/// What the engine knows: the port of each call, the relay on each port, and the
/// range that ports are drawn from.
#[verifier::ext_equal]
pub struct RelayTable {
    pub calls: Map<Seq<char>, u16>,
    pub relays: Map<u16, RtpRelay>,
    pub start_port: u16,
    pub end_port: u16,
}

/// The port that a drawn number stands for: RTP takes even ports, so an odd number
/// stands for the next one. The last number has no next one and stands for itself.
pub open spec fn rounded_port(drawn: u16) -> u16 {
    if drawn % 2 == 0 || drawn == u16::MAX {
        drawn
    } else {
        (drawn + 1) as u16
    }
}

impl RelayTable {
    /// Whether drawing `drawn` gives a port that a new relay can have.
    pub open spec fn usable(self, drawn: u16) -> bool {
        &&& rounded_port(drawn) <= self.end_port
        &&& !self.relays.dom().contains(rounded_port(drawn))
    }

    /// Whether a number can be drawn at all.
    pub open spec fn drawable(self, drawn: u16) -> bool {
        self.start_port <= drawn <= self.end_port
    }

    /// Whether `drawn` was drawn from the whole range for this attempt.
    pub closed spec fn drew(self, attempt: int, drawn: u16) -> bool {
        call_ensures(draw_for_attempt, (self.start_port, self.end_port, attempt as u32), drawn)
    }

    /// The table after a call got a port and a relay.
    pub open spec fn with(self, call_id: Seq<char>, port: u16, relay: RtpRelay) -> RelayTable {
        RelayTable {
            calls: self.calls.insert(call_id, port),
            relays: self.relays.insert(port, relay),
            ..self
        }
    }

    /// The table after a call and a port were struck out.
    pub open spec fn without(self, call_id: Seq<char>, port: u16) -> RelayTable {
        RelayTable {
            calls: self.calls.remove(call_id),
            relays: self.relays.remove(port),
            ..self
        }
    }

    /// The relay that releasing a call ends.
    pub open spec fn relay_of(self, call_id: Seq<char>) -> Option<RtpRelay> {
        match self.calls.get(call_id) {
            Some(port) => self.relays.get(port),
            None => None,
        }
    }

    /// The table after a call was released.
    pub open spec fn released(self, call_id: Seq<char>) -> RelayTable {
        match self.calls.get(call_id) {
            Some(port) => self.without(call_id, port),
            None => self,
        }
    }

    /// Whether `grant` and `after` are what a usable draw leads to: the call gets the
    /// port with a new relay, whose session starts from what signalling announced and
    /// whose stop channel is the one in the table.
    pub open spec fn grants(
        self,
        call_id: Seq<char>,
        initial_peer: Option<PeerAddr>,
        drawn: u16,
        grant: RelayGrant,
        after: RelayTable,
    ) -> bool {
        &&& grant matches RelayGrant::Started { port, relay }
        &&& port == rounded_port(drawn)
        &&& relay.session == RelaySession::initial(initial_peer)
        &&& relay.has_stop_channel()
        &&& after == self.with(call_id, port, RtpRelay { stop_signal: relay.stop_signal })
    }

    /// Whether `grant` and `after` are what these draws lead to, one for each attempt:
    /// the first usable one decides, and an allocation is given up after `MAX_DRAWS`.
    pub open spec fn allocates(
        self,
        call_id: Seq<char>,
        initial_peer: Option<PeerAddr>,
        draws: Seq<u16>,
        grant: Option<RelayGrant>,
        after: RelayTable,
    ) -> bool {
        &&& draws.len() <= MAX_DRAWS
        &&& forall|i: int| 0 <= i < draws.len() ==> self.drew(i, #[trigger] draws[i])
        &&& forall|i: int| 0 <= i < draws.len() ==> self.drawable(#[trigger] draws[i])
        &&& match grant {
            Some(granted) => {
                &&& draws.len() > 0
                &&& forall|i: int| 0 <= i < draws.len() - 1 ==> !self.usable(#[trigger] draws[i])
                &&& self.usable(draws.last())
                &&& self.grants(call_id, initial_peer, draws.last(), granted, after)
            },
            None => {
                &&& draws.len() == MAX_DRAWS
                &&& forall|i: int| 0 <= i < draws.len() ==> !self.usable(#[trigger] draws[i])
                &&& after == self
            },
        }
    }

    /// Whether `grant` and `after` answer a call's request for a relay: a call that has
    /// one keeps it, and for any other call the draws allocate. Chance decides neither
    /// when every draw is usable nor when none is.
    pub open spec fn answers(
        self,
        call_id: Seq<char>,
        initial_peer: Option<PeerAddr>,
        grant: Option<RelayGrant>,
        after: RelayTable,
    ) -> bool {
        if self.calls.dom().contains(call_id) {
            &&& grant == Some(RelayGrant::Existing { port: self.calls[call_id] })
            &&& after == self
        } else {
            &&& exists|draws: Seq<u16>| self.allocates(call_id, initial_peer, draws, grant, after)
            &&& self.all_usable() ==> grant is Some
            &&& self.none_usable() ==> grant is None
        }
    }

    /// Whether every draw gives a port that a new relay can have.
    pub open spec fn all_usable(self) -> bool {
        forall|drawn: u16| self.drawable(drawn) ==> self.usable(drawn)
    }

    /// Whether no draw gives a port that a new relay can have.
    pub open spec fn none_usable(self) -> bool {
        forall|drawn: u16| self.drawable(drawn) ==> !self.usable(drawn)
    }

    /// No two calls share a port, and every call's port has a relay.
    pub open spec fn consistent(self) -> bool {
        &&& forall|c: Seq<char>| #[trigger]
            self.calls.dom().contains(c) ==> self.relays.dom().contains(self.calls[c])
        &&& forall|c: Seq<char>, d: Seq<char>|
            #![trigger self.calls[c], self.calls[d]]
            self.calls.dom().contains(c) && self.calls.dom().contains(d) && self.calls[c]
                == self.calls[d] ==> c == d
    }

    /// Every relay's port lies in the range and is even, or is the last port there is.
    pub open spec fn well_placed(self) -> bool {
        forall|port: u16| #[trigger]
            self.relays.dom().contains(port) ==> {
                &&& self.start_port <= port <= self.end_port
                &&& port % 2 == 0 || port == u16::MAX
            }
    }
}

/// The relays of a border controller.
pub struct RtpEngine {
    active_relays: DashMap<u16, RtpRelay>,
    call_id_map: DashMap<String, u16>,
    start_port: u16,
    end_port: u16,
}

impl View for RtpEngine {
    type V = RelayTable;

    closed spec fn view(&self) -> RelayTable {
        RelayTable {
            calls: crate::maps::call_ports(self.call_id_map),
            relays: crate::maps::relays_by_port(self.active_relays),
            start_port: self.start_port,
            end_port: self.end_port,
        }
    }
}

impl RtpEngine {
    /// An engine without relays, which draws ports from `start` to `end`.
    pub fn new(start: u16, end: u16) -> (engine: RtpEngine)
        ensures
            engine@ == (RelayTable {
                calls: Map::empty(),
                relays: Map::empty(),
                start_port: start,
                end_port: end,
            }),
            engine@.consistent(),
            engine@.well_placed(),
    {
        RtpEngine {
            active_relays: new_relay_map(),
            call_id_map: new_call_map(),
            start_port: start,
            end_port: end,
        }
    }

    /// Tries one drawn number for a call: the port it stands for, rounded up to an
    /// even one, is given to the call if it is within the range and free.
    pub fn claim_port(
        &mut self,
        call_id: &str,
        initial_peer: Option<PeerAddr>,
        drawn: u16,
    ) -> (grant: Option<RelayGrant>)
        ensures
            grant is Some <==> old(self)@.usable(drawn),
            match grant {
                Some(granted) => old(self)@.grants(
                    call_id@,
                    initial_peer,
                    drawn,
                    granted,
                    final(self)@,
                ),
                None => final(self)@ == old(self)@,
            },
    {
        let port: u16 = if drawn % 2 != 0 {
            drawn.saturating_add(1)
        } else {
            drawn
        };
        if port > self.end_port {
            return None;
        }
        if has_relay(&self.active_relays, port) {
            return None;
        }
        let stop_signal = open_stop_channel(STOP_SIGNAL_CAPACITY);
        let relay = RtpRelay { stop_signal: share_stop_channel(&stop_signal) };
        insert_relay(&mut self.active_relays, port, relay);
        insert_call(&mut self.call_id_map, call_id, port);
        Some(
            RelayGrant::Started {
                port,
                relay: StartedRelay { session: RelaySession::new(initial_peer), stop_signal },
            },
        )
    }

    /// One attempt of an allocation, the first being number zero: the drawn number
    /// decides, or leaves it to the next attempt, if there is one.
    pub fn try_draw(
        &mut self,
        call_id: &str,
        initial_peer: Option<PeerAddr>,
        attempt: u32,
        drawn: u16,
    ) -> (outcome: DrawOutcome)
        requires
            attempt < MAX_DRAWS,
        ensures
            outcome is Granted <==> old(self)@.usable(drawn),
            outcome is GiveUp <==> !old(self)@.usable(drawn) && attempt + 1 == MAX_DRAWS,
            match outcome {
                DrawOutcome::Granted(granted) => old(self)@.grants(
                    call_id@,
                    initial_peer,
                    drawn,
                    granted,
                    final(self)@,
                ),
                _ => final(self)@ == old(self)@,
            },
    {
        match self.claim_port(call_id, initial_peer, drawn) {
            Some(granted) => DrawOutcome::Granted(granted),
            None => if attempt + 1 < MAX_DRAWS {
                DrawOutcome::DrawAgain
            } else {
                DrawOutcome::GiveUp
            },
        }
    }

    /// The port of a call's relay. A call that has none yet gets one on a random port;
    /// the relay that comes with it has to be started. Nothing is given when no
    /// usable port turns up in `MAX_DRAWS` draws.
    pub fn get_or_allocate_relay(
        &mut self,
        call_id: &str,
        initial_peer: Option<PeerAddr>,
    ) -> (grant: Option<RelayGrant>)
        requires
            old(self)@.calls.dom().contains(call_id@) || old(self)@.start_port <= old(
                self,
            )@.end_port,
        ensures
            old(self)@.answers(call_id@, initial_peer, grant, final(self)@),
    {
        if let Some(port) = call_port(&self.call_id_map, call_id) {
            return Some(RelayGrant::Existing { port });
        }
        let ghost before = self@;
        let ghost mut draws: Seq<u16> = Seq::empty();
        let mut attempt: u32 = 0;
        loop
            invariant
                attempt < MAX_DRAWS,
                self@ == before,
                self@.start_port <= self@.end_port,
                before == old(self)@,
                !before.calls.dom().contains(call_id@),
                draws.len() == attempt,
                forall|i: int| 0 <= i < draws.len() ==> before.drew(i, #[trigger] draws[i]),
                forall|i: int| 0 <= i < draws.len() ==> before.drawable(#[trigger] draws[i]),
                forall|i: int| 0 <= i < draws.len() ==> !before.usable(#[trigger] draws[i]),
            decreases MAX_DRAWS - attempt,
        {
            let drawn = draw_for_attempt(self.start_port, self.end_port, attempt);
            assert(before.drew(attempt as int, drawn));
            assert(before.drawable(drawn));
            proof {
                draws = draws.push(drawn);
            }
            match self.try_draw(call_id, initial_peer, attempt, drawn) {
                DrawOutcome::Granted(granted) => {
                    let grant = Some(granted);
                    assert(before.allocates(call_id@, initial_peer, draws, grant, self@));
                    return grant;
                },
                DrawOutcome::GiveUp => {
                    assert(before.allocates(call_id@, initial_peer, draws, None, self@));
                    return None;
                },
                DrawOutcome::DrawAgain => {
                    attempt = attempt + 1;
                },
            }
        }
    }

    /// Strikes out a call and its port, and gives the relay that ran there.
    pub fn take_relay(&mut self, call_id: &str) -> (relay: Option<RtpRelay>)
        ensures
            relay == old(self)@.relay_of(call_id@),
            final(self)@ == old(self)@.released(call_id@),
    {
        match remove_call(&mut self.call_id_map, call_id) {
            Some(port) => remove_relay(&mut self.active_relays, port),
            None => {
                assert(self@ =~= old(self)@);
                None
            },
        }
    }

    /// Ends a call's relay: the call and its port are struck out, and the relay is told
    /// to stop. Tells whether there was a relay to end.
    pub fn release_relay_by_call_id(&mut self, call_id: &str) -> (released: bool)
        ensures
            released == (old(self)@.relay_of(call_id@) is Some),
            old(self)@.relay_of(call_id@) matches Some(relay) ==> relay.told_to_stop(),
            final(self)@ == old(self)@.released(call_id@),
    {
        match self.take_relay(call_id) {
            Some(relay) => {
                send_stop(&relay.stop_signal);
                true
            },
            None => false,
        }
    }

    /// Records that the relay which ran for `call_id` on `port` has ended.
    pub fn relay_ended(&mut self, call_id: &str, port: u16)
        ensures
            final(self)@ == old(self)@.without(call_id@, port),
    {
        let _ = remove_relay(&mut self.active_relays, port);
        let _ = remove_call(&mut self.call_id_map, call_id);
    }
}

/// An allocation never gives two calls the same port.
pub proof fn law_allocation_keeps_ports_apart(
    table: RelayTable,
    call_id: Seq<char>,
    initial_peer: Option<PeerAddr>,
    draws: Seq<u16>,
    grant: Option<RelayGrant>,
    after: RelayTable,
)
    requires
        table.consistent(),
        !table.calls.dom().contains(call_id),
        table.allocates(call_id, initial_peer, draws, grant, after),
    ensures
        after.consistent(),
{
}

/// Releasing a call leaves the other calls with ports of their own.
pub proof fn law_release_keeps_ports_apart(table: RelayTable, call_id: Seq<char>)
    requires
        table.consistent(),
    ensures
        table.released(call_id).consistent(),
{
}

/// The end of a relay leaves the calls with ports of their own, unless the port has
/// meanwhile gone to another call.
pub proof fn law_end_keeps_ports_apart(table: RelayTable, call_id: Seq<char>, port: u16)
    requires
        table.consistent(),
        forall|other: Seq<char>| #[trigger]
            table.calls.dom().contains(other) && other != call_id ==> table.calls[other] != port,
    ensures
        table.without(call_id, port).consistent(),
{
}

/// A call keeps the port it was given: asking again finds it, and the other calls
/// and relays are as they were.
pub proof fn law_allocated_call_is_found(
    table: RelayTable,
    call_id: Seq<char>,
    initial_peer: Option<PeerAddr>,
    draws: Seq<u16>,
    grant: RelayGrant,
    after: RelayTable,
)
    requires
        table.allocates(call_id, initial_peer, draws, Some(grant), after),
    ensures
        grant matches RelayGrant::Started { port, .. } && after.calls.get(call_id) == Some(port),
        forall|other: Seq<char>|
            other != call_id ==> after.calls.get(other) == table.calls.get(other),
        forall|port: u16| #[trigger]
            table.relays.dom().contains(port) ==> after.relays.get(port) == table.relays.get(port),
{
}

/// A call has one relay: asking again gives the port it was given first, and starts
/// nothing.
pub proof fn law_asking_again_gives_the_same_port(
    table: RelayTable,
    call_id: Seq<char>,
    first_peer: Option<PeerAddr>,
    grant: RelayGrant,
    after: RelayTable,
    second_peer: Option<PeerAddr>,
    again: Option<RelayGrant>,
    end: RelayTable,
)
    requires
        table.answers(call_id, first_peer, Some(grant), after),
        after.answers(call_id, second_peer, again, end),
    ensures
        again == Some(RelayGrant::Existing { port: grant.on_port() }),
        end == after,
{
}

/// Releasing a call takes back exactly what its allocation did, and the relay that is
/// told to stop is the one that was started.
pub proof fn law_release_undoes_allocation(
    table: RelayTable,
    call_id: Seq<char>,
    initial_peer: Option<PeerAddr>,
    draws: Seq<u16>,
    grant: RelayGrant,
    after: RelayTable,
)
    requires
        !table.calls.dom().contains(call_id),
        table.allocates(call_id, initial_peer, draws, Some(grant), after),
    ensures
        after.released(call_id) == table,
        grant matches RelayGrant::Started { relay, .. } && after.relay_of(call_id) == Some(
            RtpRelay { stop_signal: relay.stop_signal },
        ),
{
    assert(after.released(call_id) =~= table);
}

/// A released call is unknown, and its port is free again.
pub proof fn law_released_port_is_free(table: RelayTable, call_id: Seq<char>)
    ensures
        !table.released(call_id).calls.dom().contains(call_id),
        table.calls.get(call_id) matches Some(port) ==> !table.released(
            call_id,
        ).relays.dom().contains(port),
{
}

/// A new relay runs on an even port of the configured range; the one odd port that
/// can occur is the last port there is.
pub proof fn law_allocated_ports_are_well_placed(
    table: RelayTable,
    call_id: Seq<char>,
    initial_peer: Option<PeerAddr>,
    draws: Seq<u16>,
    grant: Option<RelayGrant>,
    after: RelayTable,
)
    requires
        table.well_placed(),
        table.allocates(call_id, initial_peer, draws, grant, after),
    ensures
        after.well_placed(),
{
    if grant is Some {
        assert(table.drawable(draws.last()));
    }
}

/// Releasing a call and the end of a relay put no relay on another port.
pub proof fn law_removals_keep_ports_well_placed(
    table: RelayTable,
    call_id: Seq<char>,
    port: u16,
)
    requires
        table.well_placed(),
    ensures
        table.released(call_id).well_placed(),
        table.without(call_id, port).well_placed(),
{
}

/// One draw decides by the port alone. An even number stands for itself, an odd one for the
/// number after it (and 65535, which has none, for itself); the call gets that port if it
/// is not beyond the end of the range and no relay runs on it, and for no other reason is
/// it turned down.
pub proof fn law_free_port_is_granted(
    engine: &mut RtpEngine,
    call_id: &str,
    initial_peer: Option<PeerAddr>,
    drawn: u16,
    grant: Option<RelayGrant>,
)
    requires
        call_ensures(RtpEngine::claim_port, (engine, call_id, initial_peer, drawn), grant),
    ensures
        drawn % 2 == 0 ==> (grant is Some <==> drawn <= old(engine)@.end_port
            && !old(engine)@.relays.dom().contains(drawn)),
        drawn % 2 == 1 && drawn < 65535 ==> (grant is Some <==> drawn < old(engine)@.end_port
            && !old(engine)@.relays.dom().contains((drawn + 1) as u16)),
        drawn == 65535 ==> (grant is Some <==> old(engine)@.end_port == 65535
            && !old(engine)@.relays.dom().contains(drawn)),
        grant matches Some(granted) ==> granted.on_port() == if drawn % 2 == 0 || drawn == 65535 {
            drawn as int
        } else {
            drawn + 1
        },
        old(engine)@.usable(drawn) == (grant is Some),
{
}

/// What a granted draw leaves behind: the call is mapped to the port, and the relay that is
/// handed out to be started is the one that the port now has. It knows the announced peer
/// and nothing else, and its stop channel was opened for it. Every other call and every
/// other port is as it was, and a draw that was turned down changes nothing.
pub proof fn law_grant_is_recorded(
    engine: &mut RtpEngine,
    call_id: &str,
    initial_peer: Option<PeerAddr>,
    drawn: u16,
    grant: Option<RelayGrant>,
)
    requires
        call_ensures(RtpEngine::claim_port, (engine, call_id, initial_peer, drawn), grant),
    ensures
        grant is None ==> final(engine)@ == old(engine)@,
        grant matches Some(granted) ==> {
            &&& granted matches RelayGrant::Started { port, relay }
            &&& final(engine)@.calls.get(call_id@) == Some(port)
            &&& final(engine)@.relays.get(port) == Some(
                RtpRelay { stop_signal: relay.stop_signal },
            )
            &&& relay.has_stop_channel()
            &&& !relay.session.inside.latched && !relay.session.outside.latched
            &&& initial_peer is None ==> relay.session.inside.peer is None
                && relay.session.outside.peer is None
            &&& initial_peer matches Some(peer) ==> if crate::addr::internal_ip(peer.ip) {
                relay.session.inside.peer == Some(peer) && relay.session.outside.peer is None
            } else {
                relay.session.outside.peer == Some(peer) && relay.session.inside.peer is None
            }
            &&& forall|other: u16|
                other != port ==> #[trigger] final(engine)@.relays.get(other)
                    == old(engine)@.relays.get(other)
        },
        forall|other: Seq<char>|
            other != call_id@ ==> #[trigger] final(engine)@.calls.get(other)
                == old(engine)@.calls.get(other),
        final(engine)@.start_port == old(engine)@.start_port,
        final(engine)@.end_port == old(engine)@.end_port,
{
}

/// An attempt of an allocation ends it exactly when its draw was granted or it was the last
/// of a thousand.
pub proof fn law_attempts_go_on_to_a_thousand(
    engine: &mut RtpEngine,
    call_id: &str,
    initial_peer: Option<PeerAddr>,
    attempt: u32,
    drawn: u16,
    outcome: DrawOutcome,
)
    requires
        call_ensures(
            RtpEngine::try_draw,
            (engine, call_id, initial_peer, attempt, drawn),
            outcome,
        ),
        attempt < 1000,
    ensures
        outcome is Granted <==> old(engine)@.usable(drawn),
        outcome is DrawAgain <==> !old(engine)@.usable(drawn) && attempt < 999,
        outcome is GiveUp <==> !old(engine)@.usable(drawn) && attempt == 999,
        !(outcome is Granted) ==> final(engine)@ == old(engine)@,
        outcome matches DrawOutcome::Granted(granted) ==> {
            &&& granted matches RelayGrant::Started { port, relay }
            &&& port == if drawn % 2 == 0 || drawn == 65535 {
                drawn as int
            } else {
                drawn + 1
            }
            &&& relay.session == RelaySession::initial(initial_peer)
            &&& final(engine)@.calls == old(engine)@.calls.insert(call_id@, port)
            &&& final(engine)@.relays == old(engine)@.relays.insert(
                port,
                RtpRelay { stop_signal: relay.stop_signal },
            )
        },
{
}

/// An allocation is given up only after a thousand draws from the whole range, each of
/// which was an odd end of the range or stood for a port with a relay. Nothing is changed
/// by it, and no call that has a port is ever refused.
pub proof fn law_allocation_gives_up_last(
    engine: &mut RtpEngine,
    call_id: &str,
    initial_peer: Option<PeerAddr>,
    grant: Option<RelayGrant>,
)
    requires
        call_ensures(RtpEngine::get_or_allocate_relay, (engine, call_id, initial_peer), grant),
        grant is None,
    ensures
        final(engine)@ == old(engine)@,
        !old(engine)@.calls.dom().contains(call_id@),
        exists|draws: Seq<u16>|
            {
                &&& #[trigger] draws.len() == 1000
                &&& forall|i: int| 0 <= i < 1000 ==> old(engine)@.drew(i, #[trigger] draws[i])
                &&& forall|i: int|
                    0 <= i < 1000 ==> {
                        let drawn = #[trigger] draws[i];
                        let relays = old(engine)@.relays.dom();
                        &&& old(engine)@.start_port <= drawn <= old(engine)@.end_port
                        &&& drawn % 2 == 0 || drawn == 65535 ==> relays.contains(drawn)
                        &&& drawn % 2 == 1 && drawn < 65535 ==> drawn == old(engine)@.end_port
                            || relays.contains((drawn + 1) as u16)
                    }
            },
{
    let table = old(engine)@;
    let draws = choose|draws: Seq<u16>|
        table.allocates(call_id@, initial_peer, draws, grant, final(engine)@);
    assert forall|i: int| 0 <= i < 1000 implies table.drawable(#[trigger] draws[i])
        && !table.usable(draws[i]) by {}
    assert(draws.len() == 1000);
}

/// A new call gets a port of the range that no relay ran on, even unless it is 65535; the
/// call is mapped to it, and the relay that is handed out to be started is the one that the
/// port now has, with the announced peer. The other calls and ports are as they were.
pub proof fn law_new_call_gets_a_free_port(
    engine: &mut RtpEngine,
    call_id: &str,
    initial_peer: Option<PeerAddr>,
    grant: RelayGrant,
)
    requires
        call_ensures(
            RtpEngine::get_or_allocate_relay,
            (engine, call_id, initial_peer),
            Some(grant),
        ),
        !engine@.calls.dom().contains(call_id@),
    ensures
        grant matches RelayGrant::Started { port, relay } && {
            &&& old(engine)@.start_port <= port <= old(engine)@.end_port
            &&& port % 2 == 0 || port == 65535
            &&& !old(engine)@.relays.dom().contains(port)
            &&& final(engine)@.calls == old(engine)@.calls.insert(call_id@, port)
            &&& final(engine)@.relays == old(engine)@.relays.insert(
                port,
                RtpRelay { stop_signal: relay.stop_signal },
            )
            &&& relay.has_stop_channel()
            &&& !relay.session.inside.latched && !relay.session.outside.latched
            &&& initial_peer is None ==> relay.session.inside.peer is None
                && relay.session.outside.peer is None
            &&& initial_peer matches Some(peer) ==> if crate::addr::internal_ip(peer.ip) {
                relay.session.inside.peer == Some(peer) && relay.session.outside.peer is None
            } else {
                relay.session.outside.peer == Some(peer) && relay.session.inside.peer is None
            }
        },
        final(engine)@.start_port == old(engine)@.start_port,
        final(engine)@.end_port == old(engine)@.end_port,
{
    let table = old(engine)@;
    let draws = choose|draws: Seq<u16>|
        table.allocates(call_id@, initial_peer, draws, Some(grant), final(engine)@);
    assert(table.drawable(draws.last()));
}

/// A new call is granted the first of its draws that stands for a free port of the range,
/// and each of the draws before it was an odd end of the range or stood for a port with a
/// relay.
pub proof fn law_first_free_draw_is_taken(
    engine: &mut RtpEngine,
    call_id: &str,
    initial_peer: Option<PeerAddr>,
    grant: RelayGrant,
)
    requires
        call_ensures(
            RtpEngine::get_or_allocate_relay,
            (engine, call_id, initial_peer),
            Some(grant),
        ),
        !engine@.calls.dom().contains(call_id@),
    ensures
        exists|draws: Seq<u16>|
            {
                &&& 0 < #[trigger] draws.len() <= 1000
                &&& forall|i: int|
                    0 <= i < draws.len() ==> old(engine)@.drew(i, #[trigger] draws[i])
                &&& grant.on_port() == if draws.last() % 2 == 0 || draws.last() == 65535 {
                    draws.last() as int
                } else {
                    draws.last() + 1
                }
                &&& forall|i: int|
                    0 <= i < draws.len() - 1 ==> {
                        let drawn = #[trigger] draws[i];
                        let relays = old(engine)@.relays.dom();
                        &&& old(engine)@.start_port <= drawn <= old(engine)@.end_port
                        &&& drawn % 2 == 0 || drawn == 65535 ==> relays.contains(drawn)
                        &&& drawn % 2 == 1 && drawn < 65535 ==> drawn == old(engine)@.end_port
                            || relays.contains((drawn + 1) as u16)
                    }
            },
{
    let table = old(engine)@;
    let draws = choose|draws: Seq<u16>|
        table.allocates(call_id@, initial_peer, draws, Some(grant), final(engine)@);
    assert forall|i: int| 0 <= i < draws.len() - 1 implies table.drawable(#[trigger] draws[i])
        && !table.usable(draws[i]) by {}
    assert(draws.len() > 0);
}

/// A call that has a port is answered with that port, starts nothing and changes nothing,
/// whatever peer it announces.
pub proof fn law_known_call_keeps_its_port(
    engine: &mut RtpEngine,
    call_id: &str,
    initial_peer: Option<PeerAddr>,
    grant: Option<RelayGrant>,
)
    requires
        call_ensures(RtpEngine::get_or_allocate_relay, (engine, call_id, initial_peer), grant),
        engine@.calls.dom().contains(call_id@),
    ensures
        grant == Some(RelayGrant::Existing { port: old(engine)@.calls[call_id@] }),
        final(engine)@ == old(engine)@,
{
}

/// Chance decides nothing at the extremes: where the range ends on an even port and none of
/// its ports has a relay, every new call gets one, and where each even port of the range
/// and 65535 have relays, none does.
pub proof fn law_chance_decides_only_between(
    engine: &mut RtpEngine,
    call_id: &str,
    initial_peer: Option<PeerAddr>,
    grant: Option<RelayGrant>,
)
    requires
        call_ensures(RtpEngine::get_or_allocate_relay, (engine, call_id, initial_peer), grant),
        !engine@.calls.dom().contains(call_id@),
    ensures
        old(engine)@.end_port % 2 == 0 && (forall|port: u16|
            old(engine)@.start_port <= port <= old(engine)@.end_port
                ==> !#[trigger] old(engine)@.relays.dom().contains(port)) ==> grant is Some,
        (forall|port: u16|
            old(engine)@.start_port <= port <= old(engine)@.end_port && (port % 2 == 0 || port
                == 65535) ==> #[trigger] old(engine)@.relays.dom().contains(port))
            ==> grant is None,
{
    let table = old(engine)@;
    if table.end_port % 2 == 0 && (forall|port: u16|
        table.start_port <= port <= table.end_port ==> !#[trigger] table.relays.dom().contains(
            port,
        )) {
        assert(table.all_usable());
    }
    if forall|port: u16|
        table.start_port <= port <= table.end_port && (port % 2 == 0 || port == 65535)
            ==> #[trigger] table.relays.dom().contains(port) {
        assert(table.none_usable());
    }
}

/// Releasing a call strikes out the call and its port and nothing else, stops the relay
/// that ran there, and tells whether there was one.
pub proof fn law_release_strikes_out_one_call(
    engine: &mut RtpEngine,
    call_id: &str,
    released: bool,
)
    requires
        call_ensures(RtpEngine::release_relay_by_call_id, (engine, call_id), released),
    ensures
        released <==> old(engine)@.calls.dom().contains(call_id@)
            && old(engine)@.relays.dom().contains(old(engine)@.calls[call_id@]),
        released ==> old(engine)@.relays[old(engine)@.calls[call_id@]].told_to_stop(),
        !final(engine)@.calls.dom().contains(call_id@),
        forall|other: Seq<char>|
            other != call_id@ ==> #[trigger] final(engine)@.calls.get(other)
                == old(engine)@.calls.get(other),
        forall|port: u16| #[trigger]
            final(engine)@.relays.get(port) == if old(engine)@.calls.get(call_id@) == Some(port) {
                None
            } else {
                old(engine)@.relays.get(port)
            },
        final(engine)@.start_port == old(engine)@.start_port,
        final(engine)@.end_port == old(engine)@.end_port,
{
}

/// Taking a call's relay out strikes out the same as releasing the call, and gives the
/// relay that ran on the call's port.
pub proof fn law_taken_relay_is_the_calls(
    engine: &mut RtpEngine,
    call_id: &str,
    relay: Option<RtpRelay>,
)
    requires
        call_ensures(RtpEngine::take_relay, (engine, call_id), relay),
    ensures
        relay is Some <==> old(engine)@.calls.dom().contains(call_id@)
            && old(engine)@.relays.dom().contains(old(engine)@.calls[call_id@]),
        relay matches Some(taken) ==> taken == old(engine)@.relays[old(engine)@.calls[call_id@]],
        final(engine)@.calls == old(engine)@.calls.remove(call_id@),
        forall|port: u16| #[trigger]
            final(engine)@.relays.get(port) == if old(engine)@.calls.get(call_id@) == Some(port) {
                None
            } else {
                old(engine)@.relays.get(port)
            },
        final(engine)@.start_port == old(engine)@.start_port,
        final(engine)@.end_port == old(engine)@.end_port,
{
    assert(final(engine)@.calls =~= old(engine)@.calls.remove(call_id@));
}

/// The end of a relay strikes out its call and its port and nothing else.
pub proof fn law_end_strikes_out_call_and_port(
    engine: &mut RtpEngine,
    call_id: &str,
    port: u16,
)
    requires
        call_ensures(RtpEngine::relay_ended, (engine, call_id, port), ()),
    ensures
        forall|other: Seq<char>| #[trigger]
            final(engine)@.calls.get(other) == if other == call_id@ {
                None
            } else {
                old(engine)@.calls.get(other)
            },
        forall|other: u16| #[trigger]
            final(engine)@.relays.get(other) == if other == port {
                None
            } else {
                old(engine)@.relays.get(other)
            },
        final(engine)@.start_port == old(engine)@.start_port,
        final(engine)@.end_port == old(engine)@.end_port,
{
}

/// A new engine has no calls and no relays, and keeps the ends of its range as they were
/// given, in either order.
pub proof fn law_new_engine_is_empty(start: u16, end: u16, engine: RtpEngine)
    requires
        call_ensures(RtpEngine::new, (start, end), engine),
    ensures
        engine@.start_port == start,
        engine@.end_port == end,
        forall|call_id: Seq<char>| !#[trigger] engine@.calls.dom().contains(call_id),
        forall|port: u16| !#[trigger] engine@.relays.dom().contains(port),
{
}

/// The port of a grant is the one that it names.
pub proof fn law_grant_names_its_port(grant: RelayGrant, port: u16)
    requires
        call_ensures(RelayGrant::port, (&grant,), port),
    ensures
        grant matches RelayGrant::Existing { port: named } ==> port == named,
        grant matches RelayGrant::Started { port: named, .. } ==> port == named,
        grant.on_port() == port,
{
}

/// Two calls that both get a relay, the second asked for after the first, never get the
/// same port.
pub proof fn law_two_calls_get_two_ports(
    engine: &mut RtpEngine,
    first_call: &str,
    first_peer: Option<PeerAddr>,
    first: RelayGrant,
    later: &mut RtpEngine,
    second_call: &str,
    second_peer: Option<PeerAddr>,
    second: RelayGrant,
)
    requires
        engine@.consistent(),
        first_call@ != second_call@,
        call_ensures(
            RtpEngine::get_or_allocate_relay,
            (engine, first_call, first_peer),
            Some(first),
        ),
        later@ == final(engine)@,
        call_ensures(
            RtpEngine::get_or_allocate_relay,
            (later, second_call, second_peer),
            Some(second),
        ),
    ensures
        first.on_port() != second.on_port(),
        final(later)@.consistent(),
{
    let table = old(engine)@;
    let middle = final(engine)@;
    if !table.calls.dom().contains(first_call@) {
        let draws = choose|draws: Seq<u16>|
            table.allocates(first_call@, first_peer, draws, Some(first), middle);
        law_allocation_keeps_ports_apart(
            table,
            first_call@,
            first_peer,
            draws,
            Some(first),
            middle,
        );
    }
    assert(middle.calls.dom().contains(first_call@));
    assert(middle.calls[first_call@] == first.on_port());
    if !middle.calls.dom().contains(second_call@) {
        let draws = choose|draws: Seq<u16>|
            middle.allocates(second_call@, second_peer, draws, Some(second), final(later)@);
        law_allocation_keeps_ports_apart(
            middle,
            second_call@,
            second_peer,
            draws,
            Some(second),
            final(later)@,
        );
    } else {
        assert(middle.calls[second_call@] == second.on_port());
    }
}

/// Allocation followed by release leaves the engine as it was.
pub proof fn law_release_after_allocation(
    engine: &mut RtpEngine,
    call_id: &str,
    initial_peer: Option<PeerAddr>,
    grant: RelayGrant,
    later: &mut RtpEngine,
    released: bool,
)
    requires
        !engine@.calls.dom().contains(call_id@),
        call_ensures(
            RtpEngine::get_or_allocate_relay,
            (engine, call_id, initial_peer),
            Some(grant),
        ),
        later@ == final(engine)@,
        call_ensures(RtpEngine::release_relay_by_call_id, (later, call_id), released),
    ensures
        released,
        final(later)@ == old(engine)@,
        grant matches RelayGrant::Started { relay, .. } && (RtpRelay {
            stop_signal: relay.stop_signal,
        }).told_to_stop(),
{
    let table = old(engine)@;
    let draws = choose|draws: Seq<u16>|
        table.allocates(call_id@, initial_peer, draws, Some(grant), final(engine)@);
    law_release_undoes_allocation(
        table,
        call_id@,
        initial_peer,
        draws,
        grant,
        final(engine)@,
    );
}

/// A draw that counts for an attempt came from the random generator, over the whole range;
/// a relay that counts as told to stop was sent the signal on its own channel; and a stop
/// channel that counts as open has room for one signal.
proof fn law_outside_calls_were_made(
    table: RelayTable,
    attempt: int,
    drawn: u16,
    running: RtpRelay,
    started: StartedRelay,
)
    requires
        0 <= attempt < 1000,
        table.drew(attempt, drawn),
        running.told_to_stop(),
        started.has_stop_channel(),
    ensures
        call_ensures(
            draw_for_attempt,
            (table.start_port, table.end_port, attempt as u32),
            drawn,
        ),
        call_ensures(draw_port, (table.start_port, table.end_port), drawn),
        call_ensures(send_stop, (&running.stop_signal,), ()),
        call_ensures(open_stop_channel, (1usize,), started.stop_signal),
{
}

} // verus!
