//! Resolving host names, with a cache that also serves when the network does not.
//!
//! The caller asks the network and sleeps; the cache says when to do which, and
//! when to stop. Instants are nanoseconds on a clock of the caller's that does not
//! run backwards.

use dashmap::DashMap;
use vstd::prelude::*;

use crate::addr::PeerAddr;
use crate::maps::{insert_name, new_name_map, resolved_name};

verus! {

/// How long a resolved address is used without asking the network again.
pub const FRESH_NANOS: u128 = 60_000_000_000;

/// How often the network is asked for one request.
pub const MAX_ATTEMPTS: u8 = 5;

/// How long one question to the network may take, in milliseconds.
pub const LOOKUP_TIMEOUT_MILLIS: u64 = 500;

/// How long to rest after the first question without an answer, in milliseconds.
pub const FIRST_REST_MILLIS: u64 = 100;

/// What happened to a request.
#[derive(Clone, Copy, Debug, PartialEq, Eq, Structural)]
pub enum ResolveEvent {
    /// The request was made.
    Requested,
    /// The network was asked for the `attempt`-th time; `found` is the first address
    /// of its answer. An error, a timeout and an empty answer find nothing.
    LookedUp { attempt: u8, found: Option<PeerAddr> },
    /// The rest after the `attempt`-th question is over.
    Rested { attempt: u8 },
}

/// What to do next for a request.
#[derive(Clone, Copy, Debug, PartialEq, Eq, Structural)]
pub enum ResolveAction {
    /// The request is answered.
    Finish(Option<PeerAddr>),
    /// Ask the network for the `attempt`-th time.
    LookUp { attempt: u8 },
    /// Rest after the `attempt`-th question.
    Rest { attempt: u8, millis: u64 },
}

/// The rest after the `attempt`-th question: each one twice as long as the one before.
pub open spec fn rest_millis(attempt: nat) -> nat
    decreases attempt,
{
    if attempt <= 1 {
        FIRST_REST_MILLIS as nat
    } else {
        2 * rest_millis((attempt - 1) as nat)
    }
}

/// Whether an address that is good from `since` is still fresh at `now`.
pub open spec fn fresh(now: u128, since: u128) -> bool {
    now - since < FRESH_NANOS
}

impl ResolveEvent {
    /// An event speaks of an attempt that the cache can have asked for.
    pub open spec fn possible(self) -> bool {
        match self {
            ResolveEvent::Requested => true,
            ResolveEvent::LookedUp { attempt, .. } => 1 <= attempt <= MAX_ATTEMPTS,
            ResolveEvent::Rested { attempt } => 1 <= attempt <= MAX_ATTEMPTS,
        }
    }
}

/// What to do about a request for `hostname` made at `now`, when the cache holds
/// `names`. An address that the host name itself spells, `literal`, is the answer; a
/// fresh entry answers at once; otherwise the network is asked.
pub open spec fn first_action(
    names: Map<Seq<char>, (PeerAddr, u128)>,
    hostname: Seq<char>,
    now: u128,
    literal: Option<PeerAddr>,
) -> ResolveAction {
    match literal {
        Some(addr) => ResolveAction::Finish(Some(addr)),
        None => match names.get(hostname) {
            Some((addr, since)) if fresh(now, since) => ResolveAction::Finish(Some(addr)),
            _ => ResolveAction::LookUp { attempt: 1 },
        },
    }
}

/// What to do when the network was asked for the `attempt`-th time: what it found is
/// the answer, and a failure is followed by a rest.
pub open spec fn action_after_lookup(attempt: u8, found: Option<PeerAddr>) -> ResolveAction {
    match found {
        Some(addr) => ResolveAction::Finish(Some(addr)),
        None => ResolveAction::Rest { attempt, millis: rest_millis(attempt as nat) as u64 },
    }
}

/// What to do after the `attempt`-th rest: the network is asked again, up to
/// `MAX_ATTEMPTS` times in all, and then an entry of any age answers.
pub open spec fn action_after_rest(
    names: Map<Seq<char>, (PeerAddr, u128)>,
    hostname: Seq<char>,
    attempt: u8,
) -> ResolveAction {
    if attempt < MAX_ATTEMPTS {
        ResolveAction::LookUp { attempt: (attempt + 1) as u8 }
    } else {
        ResolveAction::Finish(last_resort(names, hostname))
    }
}

/// The address that the cache holds for `hostname`, however old.
pub open spec fn last_resort(
    names: Map<Seq<char>, (PeerAddr, u128)>,
    hostname: Seq<char>,
) -> Option<PeerAddr> {
    match names.get(hostname) {
        Some((addr, _)) => Some(addr),
        None => None,
    }
}

/// What the cache holds after the event: an answer of the network is kept, good from
/// the instant the request was made.
pub open spec fn next_names(
    names: Map<Seq<char>, (PeerAddr, u128)>,
    hostname: Seq<char>,
    now: u128,
    event: ResolveEvent,
) -> Map<Seq<char>, (PeerAddr, u128)> {
    match event {
        ResolveEvent::LookedUp { found: Some(addr), .. } => names.insert(hostname, (addr, now)),
        _ => names,
    }
}

/// The resolved names of a border controller.
pub struct DnsCache {
    cache: DashMap<String, (PeerAddr, u128)>,
}

impl View for DnsCache {
    type V = Map<Seq<char>, (PeerAddr, u128)>;

    closed spec fn view(&self) -> Map<Seq<char>, (PeerAddr, u128)> {
        crate::maps::resolved_names(self.cache)
    }
}

impl Default for DnsCache {
    fn default() -> (cache: DnsCache)
        ensures
            cache@ == Map::<Seq<char>, (PeerAddr, u128)>::empty(),
    {
        DnsCache::new()
    }
}

impl DnsCache {
    /// A cache that holds nothing.
    pub fn new() -> (cache: DnsCache)
        ensures
            cache@ == Map::<Seq<char>, (PeerAddr, u128)>::empty(),
    {
        DnsCache { cache: new_name_map() }
    }

    /// The first turn of a request for `hostname` that was made at `now`. `literal` is
    /// the address that the host name spells, if it spells one.
    pub fn begin_request(
        &self,
        hostname: &str,
        now: u128,
        literal: Option<PeerAddr>,
    ) -> (action: ResolveAction)
        ensures
            action == first_action(self@, hostname@, now, literal),
    {
        if let Some(addr) = literal {
            return ResolveAction::Finish(Some(addr));
        }
        if let Some((addr, since)) = resolved_name(&self.cache, hostname) {
            if now < since || now - since < FRESH_NANOS {
                return ResolveAction::Finish(Some(addr));
            }
        }
        ResolveAction::LookUp { attempt: 1 }
    }

    /// One turn of a request for `hostname` that was made at `now`: takes in what
    /// happened, and says what to do next. `parse_endpoint` reads an address and port;
    /// it is asked once, about the host name of a new request.
    pub fn resolve<P>(
        &mut self,
        hostname: &str,
        now: u128,
        event: ResolveEvent,
        parse_endpoint: P,
    ) -> (action: ResolveAction) where P: Fn(&str) -> Option<PeerAddr>
        requires
            event.possible(),
            event is Requested ==> call_requires(parse_endpoint, (hostname,)),
        ensures
            match event {
                ResolveEvent::Requested => exists|literal: Option<PeerAddr>|
                    {
                        &&& call_ensures(parse_endpoint, (hostname,), literal)
                        &&& action == #[trigger] first_action(
                            old(self)@,
                            hostname@,
                            now,
                            literal,
                        )
                    },
                ResolveEvent::LookedUp { attempt, found } => action == action_after_lookup(
                    attempt,
                    found,
                ),
                ResolveEvent::Rested { attempt } => action == action_after_rest(
                    old(self)@,
                    hostname@,
                    attempt,
                ),
            },
            final(self)@ == next_names(old(self)@, hostname@, now, event),
    {
        match event {
            ResolveEvent::Requested => {
                let literal = parse_endpoint(hostname);
                self.begin_request(hostname, now, literal)
            },
            ResolveEvent::LookedUp { found: Some(addr), .. } => {
                insert_name(&mut self.cache, hostname, addr, now);
                ResolveAction::Finish(Some(addr))
            },
            ResolveEvent::LookedUp { attempt, found: None } => {
                ResolveAction::Rest { attempt, millis: rest_after(attempt) }
            },
            ResolveEvent::Rested { attempt } => {
                if attempt < MAX_ATTEMPTS {
                    return ResolveAction::LookUp { attempt: attempt + 1 };
                }
                match resolved_name(&self.cache, hostname) {
                    Some((addr, _)) => ResolveAction::Finish(Some(addr)),
                    None => ResolveAction::Finish(None),
                }
            },
        }
    }
}

/// The rest after the `attempt`-th question, in milliseconds.
fn rest_after(attempt: u8) -> (millis: u64)
    requires
        1 <= attempt <= MAX_ATTEMPTS,
    ensures
        millis == rest_millis(attempt as nat),
{
    let mut millis: u64 = FIRST_REST_MILLIS;
    let mut k: u8 = 1;
    while k < attempt
        invariant
            1 <= k <= attempt <= MAX_ATTEMPTS,
            millis == rest_millis(k as nat),
        decreases attempt - k,
    {
        proof {
            reveal_with_fuel(rest_millis, 5);
        }
        millis = millis * 2;
        k = k + 1;
    }
    millis
}

/// An address literal is answered without the network and without the cache.
pub proof fn law_literal_is_its_own_answer(
    names: Map<Seq<char>, (PeerAddr, u128)>,
    hostname: Seq<char>,
    now: u128,
    addr: PeerAddr,
)
    ensures
        first_action(names, hostname, now, Some(addr)) == ResolveAction::Finish(Some(addr)),
        next_names(names, hostname, now, ResolveEvent::Requested) == names,
{
}

/// What the network answered is answered again from the cache, without the network,
/// while it is fresh, and asked for anew from then on.
pub proof fn law_answers_are_cached(
    names: Map<Seq<char>, (PeerAddr, u128)>,
    hostname: Seq<char>,
    now: u128,
    attempt: u8,
    addr: PeerAddr,
    later: u128,
)
    ensures
        ({
            let answered = ResolveEvent::LookedUp { attempt, found: Some(addr) };
            let held = next_names(names, hostname, now, answered);
            first_action(held, hostname, later, None) == if later < now + FRESH_NANOS {
                ResolveAction::Finish(Some(addr))
            } else {
                ResolveAction::LookUp { attempt: 1 }
            }
        }),
{
}

/// No event of one host name changes what is held of another.
pub proof fn law_names_are_kept_apart(
    names: Map<Seq<char>, (PeerAddr, u128)>,
    hostname: Seq<char>,
    now: u128,
    event: ResolveEvent,
    other: Seq<char>,
)
    requires
        other != hostname,
    ensures
        next_names(names, hostname, now, event).get(other) == names.get(other),
{
}

/// No event makes the cache forget a name.
pub proof fn law_names_are_never_forgotten(
    names: Map<Seq<char>, (PeerAddr, u128)>,
    hostname: Seq<char>,
    now: u128,
    event: ResolveEvent,
    name: Seq<char>,
)
    requires
        names.dom().contains(name),
    ensures
        next_names(names, hostname, now, event).dom().contains(name),
{
}

/// The actions from `action` on when the network never answers.
pub open spec fn actions_without_answer(
    names: Map<Seq<char>, (PeerAddr, u128)>,
    hostname: Seq<char>,
    action: ResolveAction,
    steps: nat,
) -> Seq<ResolveAction>
    decreases steps,
{
    if steps == 0 {
        Seq::empty()
    } else {
        let next = match action {
            ResolveAction::Finish(_) => action,
            ResolveAction::LookUp { attempt } => action_after_lookup(attempt, None),
            ResolveAction::Rest { attempt, .. } => action_after_rest(names, hostname, attempt),
        };
        seq![action] + actions_without_answer(names, hostname, next, (steps - 1) as nat)
    }
}

/// When the network never answers, it is asked five times, with rests of 100, 200,
/// 400, 800 and 1600 milliseconds after the questions, and then the cache answers
/// with what it holds, however old, or with nothing.
pub proof fn law_silence_ends_with_the_cache(
    names: Map<Seq<char>, (PeerAddr, u128)>,
    hostname: Seq<char>,
)
    ensures
        actions_without_answer(
            names,
            hostname,
            ResolveAction::LookUp { attempt: 1 },
            11,
        ) == seq![
            ResolveAction::LookUp { attempt: 1 },
            ResolveAction::Rest { attempt: 1, millis: 100 },
            ResolveAction::LookUp { attempt: 2 },
            ResolveAction::Rest { attempt: 2, millis: 200 },
            ResolveAction::LookUp { attempt: 3 },
            ResolveAction::Rest { attempt: 3, millis: 400 },
            ResolveAction::LookUp { attempt: 4 },
            ResolveAction::Rest { attempt: 4, millis: 800 },
            ResolveAction::LookUp { attempt: 5 },
            ResolveAction::Rest { attempt: 5, millis: 1600 },
            ResolveAction::Finish(last_resort(names, hostname)),
        ],
{
    reveal_with_fuel(actions_without_answer, 12);
    reveal_with_fuel(rest_millis, 6);
}

/// What the network found is the answer, with every part of the address, at whichever
/// attempt it was found; and it is what the cache now holds for the name, good from the
/// instant of the request. The other names are as they were.
pub proof fn law_network_answer_is_given_as_it_is<P: Fn(&str) -> Option<PeerAddr>>(
    cache: &mut DnsCache,
    hostname: &str,
    now: u128,
    attempt: u8,
    addr: PeerAddr,
    parse_endpoint: P,
    action: ResolveAction,
)
    requires
        call_ensures(
            DnsCache::resolve::<P>,
            (
                cache,
                hostname,
                now,
                ResolveEvent::LookedUp { attempt, found: Some(addr) },
                parse_endpoint,
            ),
            action,
        ),
    ensures
        action == ResolveAction::Finish(Some(addr)),
        action_after_lookup(attempt, Some(addr)) == action,
        forall|name: Seq<char>| #[trigger]
            final(cache)@.get(name) == if name == hostname@ {
                Some((addr, now))
            } else {
                old(cache)@.get(name)
            },
{
}

/// A question without an answer is followed by a rest of 100 milliseconds, and each further
/// one by a rest of twice the length. The cache stays as it is.
pub proof fn law_silence_is_followed_by_a_rest<P: Fn(&str) -> Option<PeerAddr>>(
    cache: &mut DnsCache,
    hostname: &str,
    now: u128,
    attempt: u8,
    parse_endpoint: P,
    action: ResolveAction,
)
    requires
        1 <= attempt <= 5,
        call_ensures(
            DnsCache::resolve::<P>,
            (
                cache,
                hostname,
                now,
                ResolveEvent::LookedUp { attempt, found: None },
                parse_endpoint,
            ),
            action,
        ),
    ensures
        action matches ResolveAction::Rest { attempt: rested, millis } && rested == attempt
            && millis == 100 * vstd::arithmetic::power2::pow2((attempt - 1) as nat),
        action_after_lookup(attempt, None) == action,
        final(cache)@ == old(cache)@,
{
    vstd::arithmetic::power2::lemma2_to64();
    reveal_with_fuel(rest_millis, 6);
}

/// After a rest the network is asked once more, and after the fifth rest the cache answers
/// with the address it holds for the name, however old, or with nothing if it holds none.
/// The cache stays as it is.
pub proof fn law_rest_is_followed_by_a_question<P: Fn(&str) -> Option<PeerAddr>>(
    cache: &mut DnsCache,
    hostname: &str,
    now: u128,
    attempt: u8,
    parse_endpoint: P,
    action: ResolveAction,
)
    requires
        1 <= attempt <= 5,
        call_ensures(
            DnsCache::resolve::<P>,
            (cache, hostname, now, ResolveEvent::Rested { attempt }, parse_endpoint),
            action,
        ),
    ensures
        attempt < 5 ==> (action matches ResolveAction::LookUp { attempt: next } && next == attempt
            + 1),
        attempt == 5 && old(cache)@.dom().contains(hostname@) ==> action == ResolveAction::Finish(
            Some(old(cache)@[hostname@].0),
        ),
        attempt == 5 && !old(cache)@.dom().contains(hostname@) ==> action == ResolveAction::Finish(
            None,
        ),
        action_after_rest(old(cache)@, hostname@, attempt) == action,
        final(cache)@ == old(cache)@,
{
}

/// A request is answered at once by the address that its host name is read as, else by an
/// entry of its name that is less than sixty seconds old, and by nothing else; otherwise
/// the network is asked for the first time. The cache stays as it is.
pub proof fn law_request_is_answered_at_once_or_asked<P: Fn(&str) -> Option<PeerAddr>>(
    cache: &mut DnsCache,
    hostname: &str,
    now: u128,
    parse_endpoint: P,
    action: ResolveAction,
)
    requires
        call_ensures(
            DnsCache::resolve::<P>,
            (cache, hostname, now, ResolveEvent::Requested, parse_endpoint),
            action,
        ),
    ensures
        exists|literal: Option<PeerAddr>|
            {
                &&& #[trigger] call_ensures(parse_endpoint, (hostname,), literal)
                &&& literal is Some ==> action == ResolveAction::Finish(literal)
                &&& literal is None && old(cache)@.dom().contains(hostname@) && now
                    < old(cache)@[hostname@].1 + 60_000_000_000 ==> action == ResolveAction::Finish(
                    Some(old(cache)@[hostname@].0),
                )
                &&& literal is None && !(old(cache)@.dom().contains(hostname@) && now
                    < old(cache)@[hostname@].1 + 60_000_000_000) ==> action == (ResolveAction::LookUp {
                    attempt: 1,
                })
            },
        final(cache)@ == old(cache)@,
{
}

/// The first turn of a request, for each address that the host name can be read as.
pub proof fn law_first_turn_of_a_request(
    cache: &DnsCache,
    hostname: &str,
    now: u128,
    literal: Option<PeerAddr>,
    action: ResolveAction,
)
    requires
        call_ensures(DnsCache::begin_request, (cache, hostname, now, literal), action),
    ensures
        literal is Some ==> action == ResolveAction::Finish(literal),
        literal is None && cache@.dom().contains(hostname@) ==> action == if now
            < cache@[hostname@].1 + 60_000_000_000 {
            ResolveAction::Finish(Some(cache@[hostname@].0))
        } else {
            ResolveAction::LookUp { attempt: 1 }
        },
        literal is None && !cache@.dom().contains(hostname@) ==> action == (ResolveAction::LookUp {
            attempt: 1,
        }),
        first_action(cache@, hostname@, now, literal) == action,
{
}

/// Two calls: what the network found for a name answers every later request for it, as it
/// was found, for sixty seconds from the first request on, unless the name is itself read
/// as an address.
pub proof fn law_found_address_serves_for_a_minute<P: Fn(&str) -> Option<PeerAddr>>(
    cache: &mut DnsCache,
    hostname: &str,
    now: u128,
    attempt: u8,
    addr: PeerAddr,
    parse_endpoint: P,
    first: ResolveAction,
    held: &DnsCache,
    later: u128,
    second: ResolveAction,
)
    requires
        call_ensures(
            DnsCache::resolve::<P>,
            (
                cache,
                hostname,
                now,
                ResolveEvent::LookedUp { attempt, found: Some(addr) },
                parse_endpoint,
            ),
            first,
        ),
        held@ == final(cache)@,
        call_ensures(DnsCache::begin_request, (held, hostname, later, None), second),
    ensures
        later < now + 60_000_000_000 ==> second == first,
        later >= now + 60_000_000_000 ==> second == (ResolveAction::LookUp { attempt: 1 }),
{
}

/// A new cache holds nothing, however it is made, and one question to the network may take
/// half a second.
pub proof fn law_new_cache_holds_nothing(made: DnsCache, default: DnsCache)
    requires
        call_ensures(DnsCache::new, (), made),
        call_ensures(<DnsCache as Default>::default, (), default),
    ensures
        forall|name: Seq<char>| !#[trigger] made@.dom().contains(name),
        forall|name: Seq<char>| !#[trigger] default@.dom().contains(name),
        LOOKUP_TIMEOUT_MILLIS == 500,
{
}

} // verus!
