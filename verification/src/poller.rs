//! The poller: one tick per interval, in which the engine is asked about the master deck
//! and about the hotcues of every audible deck, and what changed is sent on.
//!
//! The poller asks nothing and sends nothing itself. It is a state machine: its state
//! names the one thing that is to happen next ([`StatePoller::action`]), and the
//! outcome of that, handed back as an event, moves it on ([`StatePoller::advance`]).

use crate::codec::{encode_payload, payload_json};
use crate::config::TcpConfig;
use crate::delivery::{
    address_of, attempted, begun, ClientView, SendStep, TcpClient, RETRY_PAUSE_MS,
};
use crate::events::{
    assembled, crossing_event, hotcues_view, master_view, EventPayload, HotcueEvent,
    HotcueEventView, MasterEvent, MasterEventView,
};
use crate::host::{
    active_deck_command, audible, cue_command, cue_command_text, cue_set, deck_command,
    deck_command_text, deck_named, is_audible, is_cue_set, number_of, parse_active_deck, text_of,
    text_or_empty, Query, Reply, CUES, DECKS,
};
use crate::tracker::{
    armed_after, fires, master_after, master_event, CueKey, CueKeyView, CueTracker, MasterTracker,
    Sighting,
};
use vstd::prelude::*;

verus! {

/// The pause between two ticks, in milliseconds.
pub const POLL_INTERVAL_MS: u64 = 100;

/// Where the poller stands. `T` is the type of a text: `String` in a running poller,
/// `Seq<char>` in its contracts.
#[derive(Debug, Clone, PartialEq, Eq)]
pub enum Stage<T> {
    /// Between two ticks.
    Resting,
    /// Asked which deck is active.
    ActiveDeck,
    /// Asked for the title on the active deck.
    MasterTitle { deck: u32 },
    /// Asked whether a deck can be heard.
    Audible { deck: u32 },
    /// Asked for the title on an audible deck.
    Title { deck: u32 },
    /// Asked where the cursor of a deck stands.
    Position { deck: u32, title: T },
    /// Asked whether a hotcue is set.
    HasCue { deck: u32, title: T, cursor: i64, cue: u32 },
    /// Asked where a hotcue lies.
    CuePos { deck: u32, title: T, cursor: i64, cue: u32 },
    /// Asked for the name of a hotcue whose crossing is to be reported.
    CueName { deck: u32, title: T, cursor: i64, cue: u32 },
    /// A connection for `message` was called for, as attempt number `attempt`.
    Sending { message: T, attempt: u32, pause_ms: u64 },
    /// The poller was told to end.
    Stopped,
}

/// What came of the action that the poller called for.
#[derive(Debug, Clone, PartialEq, Eq)]
pub enum Event<T> {
    /// The pause is over, or the poller is started. `active` says whether the poller is
    /// to go on, `ready` whether the engine can be asked.
    Woke { active: bool, ready: bool },
    /// The engine was asked.
    Answered(Reply<T>),
    /// A connection was attempted; `delivered` says whether the message was written.
    Sent { delivered: bool },
}

/// What the poller calls for.
#[derive(Debug, Clone, PartialEq, Eq)]
pub enum Action<T> {
    /// Leave the loop.
    Stop,
    /// Pause, then report [`Event::Woke`].
    Sleep { ms: u64 },
    /// Ask the engine, then report [`Event::Answered`].
    Ask(Query<T>),
    /// Pause for `pause_ms`, open a fresh connection to `address`, write `message` and
    /// close; then report [`Event::Sent`].
    Connect { pause_ms: u64, address: T, message: T },
}

impl View for Stage<String> {
    type V = Stage<Seq<char>>;

    open spec fn view(&self) -> Stage<Seq<char>> {
        match *self {
            Stage::Resting => Stage::Resting,
            Stage::ActiveDeck => Stage::ActiveDeck,
            Stage::MasterTitle { deck } => Stage::MasterTitle { deck },
            Stage::Audible { deck } => Stage::Audible { deck },
            Stage::Title { deck } => Stage::Title { deck },
            Stage::Position { deck, title } => Stage::Position { deck, title: title@ },
            Stage::HasCue { deck, title, cursor, cue } => Stage::HasCue {
                deck,
                title: title@,
                cursor,
                cue,
            },
            Stage::CuePos { deck, title, cursor, cue } => Stage::CuePos {
                deck,
                title: title@,
                cursor,
                cue,
            },
            Stage::CueName { deck, title, cursor, cue } => Stage::CueName {
                deck,
                title: title@,
                cursor,
                cue,
            },
            Stage::Sending { message, attempt, pause_ms } => Stage::Sending {
                message: message@,
                attempt,
                pause_ms,
            },
            Stage::Stopped => Stage::Stopped,
        }
    }
}

impl View for Event<String> {
    type V = Event<Seq<char>>;

    open spec fn view(&self) -> Event<Seq<char>> {
        match *self {
            Event::Woke { active, ready } => Event::Woke { active, ready },
            Event::Answered(reply) => Event::Answered(reply@),
            Event::Sent { delivered } => Event::Sent { delivered },
        }
    }
}

impl View for Action<String> {
    type V = Action<Seq<char>>;

    open spec fn view(&self) -> Action<Seq<char>> {
        match *self {
            Action::Stop => Action::Stop,
            Action::Sleep { ms } => Action::Sleep { ms },
            Action::Ask(query) => Action::Ask(query@),
            Action::Connect { pause_ms, address, message } => Action::Connect {
                pause_ms,
                address: address@,
                message: message@,
            },
        }
    }
}

/// What the poller keeps from stage to stage.
pub struct SessionView {
    /// The hotcues reported for their present crossing.
    pub armed: Set<CueKeyView>,
    /// The title of the master deck as last reported.
    pub master: Seq<char>,
    /// The sender's side of the delivery.
    pub client: ClientView,
    /// The master event of the present tick.
    pub found_master: Option<MasterEventView>,
    /// The crossings of the present tick, in the order found.
    pub found_cues: Seq<HotcueEventView>,
}

/// The mathematical content of a [`StatePoller`].
pub struct PollerView {
    pub stage: Stage<Seq<char>>,
    pub session: SessionView,
}

/// The one thing that is to happen next in a state.
pub open spec fn action_of(p: PollerView) -> Action<Seq<char>> {
    match p.stage {
        Stage::Resting => Action::Sleep { ms: POLL_INTERVAL_MS },
        Stage::ActiveDeck => Action::Ask(Query::Text(active_deck_command())),
        Stage::MasterTitle { deck } => Action::Ask(
            Query::Text(deck_command(deck as nat, "get_title"@)),
        ),
        Stage::Audible { deck } => Action::Ask(
            Query::Text(deck_command(deck as nat, "is_audible"@)),
        ),
        Stage::Title { deck } => Action::Ask(Query::Text(deck_command(deck as nat, "get_title"@))),
        Stage::Position { deck, .. } => Action::Ask(
            Query::Number(deck_command(deck as nat, "get_position"@)),
        ),
        Stage::HasCue { deck, cue, .. } => Action::Ask(
            Query::Text(cue_command(deck as nat, "has_cue"@, cue as nat)),
        ),
        Stage::CuePos { deck, cue, .. } => Action::Ask(
            Query::Number(cue_command(deck as nat, "cue_pos"@, cue as nat)),
        ),
        Stage::CueName { deck, cue, .. } => Action::Ask(
            Query::Text(cue_command(deck as nat, "cue_name"@, cue as nat)),
        ),
        Stage::Sending { message, pause_ms, .. } => Action::Connect {
            pause_ms,
            address: address_of(p.session.client),
            message,
        },
        Stage::Stopped => Action::Stop,
    }
}

/// The end of a tick. Where the tick found nothing, the poller rests: nothing is encoded
/// and no connection is called for. Otherwise the payload is encoded and its send begins;
/// where that fails at once, the payload is dropped and the poller rests.
pub open spec fn delivery_started(s: SessionView, now_ms: nat) -> PollerView {
    match assembled(s.found_master, s.found_cues) {
        None => PollerView { stage: Stage::Resting, session: s },
        Some(payload) => {
            let (client, step) = begun(s.client, now_ms);
            let session = SessionView { client, ..s };
            match step {
                SendStep::Attempt { attempt, pause_ms } => PollerView {
                    stage: Stage::Sending { message: payload_json(payload), attempt, pause_ms },
                    session,
                },
                _ => PollerView { stage: Stage::Resting, session },
            }
        },
    }
}

/// What follows the last question about a deck: the next deck, or the end of the tick.
pub open spec fn after_deck(s: SessionView, deck: u32, now_ms: nat) -> PollerView {
    if deck < DECKS {
        PollerView { stage: Stage::Audible { deck: (deck + 1) as u32 }, session: s }
    } else {
        delivery_started(s, now_ms)
    }
}

/// What follows the last question about a hotcue: the next hotcue of the deck, or what
/// follows the deck.
pub open spec fn after_cue(
    s: SessionView,
    deck: u32,
    title: Seq<char>,
    cursor: i64,
    cue: u32,
    now_ms: nat,
) -> PollerView {
    if cue < CUES {
        PollerView { stage: Stage::HasCue { deck, title, cursor, cue: (cue + 1) as u32 }, session: s }
    } else {
        after_deck(s, deck, now_ms)
    }
}

/// The state after the engine's answer.
///
/// - The active deck: where the answer names a deck, its title is asked for; where it
///   does not, the master deck is left alone in this tick.
/// - The master deck's title: it goes to the master tracker, and what that reports is
///   the tick's master event.
/// - A deck that cannot be heard, has no title or has no position is passed over.
/// - A hotcue that is not set, or whose position the engine does not give, is passed
///   over. Otherwise the sighting goes to the cue tracker; where that reports the
///   crossing, the cue's name is asked for, and the event is added to the tick's
///   crossings with whatever name the engine gave.
///
/// In a stage that awaits no answer, nothing changes.
pub open spec fn answered(p: PollerView, reply: Reply<Seq<char>>, now_ms: nat) -> PollerView {
    let s = p.session;
    match p.stage {
        Stage::ActiveDeck => match deck_named(text_or_empty(reply)) {
            Some(deck) => PollerView { stage: Stage::MasterTitle { deck }, session: s },
            None => PollerView { stage: Stage::Audible { deck: 1 }, session: s },
        },
        Stage::MasterTitle { deck } => PollerView {
            stage: Stage::Audible { deck: 1 },
            session: SessionView {
                master: master_after(s.master, text_or_empty(reply)),
                found_master: master_event(s.master, text_or_empty(reply)),
                ..s
            },
        },
        Stage::Audible { deck } => if audible(text_or_empty(reply)) {
            PollerView { stage: Stage::Title { deck }, session: s }
        } else {
            after_deck(s, deck, now_ms)
        },
        Stage::Title { deck } => if text_or_empty(reply).len() > 0 {
            PollerView { stage: Stage::Position { deck, title: text_or_empty(reply) }, session: s }
        } else {
            after_deck(s, deck, now_ms)
        },
        Stage::Position { deck, title } => match number_of(reply) {
            Some(cursor) => if cursor >= 0 {
                PollerView { stage: Stage::HasCue { deck, title, cursor, cue: 1 }, session: s }
            } else {
                after_deck(s, deck, now_ms)
            },
            None => after_deck(s, deck, now_ms),
        },
        Stage::HasCue { deck, title, cursor, cue } => if cue_set(text_or_empty(reply)) {
            PollerView { stage: Stage::CuePos { deck, title, cursor, cue }, session: s }
        } else {
            after_cue(s, deck, title, cursor, cue, now_ms)
        },
        Stage::CuePos { deck, title, cursor, cue } => match number_of(reply) {
            Some(marker) => {
                let sighting = Sighting {
                    key: CueKeyView { title, cue: cue as nat },
                    cursor: cursor as int,
                    marker: marker as int,
                };
                let seen = SessionView { armed: armed_after(s.armed, sighting), ..s };
                if fires(s.armed, sighting) {
                    PollerView { stage: Stage::CueName { deck, title, cursor, cue }, session: seen }
                } else {
                    after_cue(seen, deck, title, cursor, cue, now_ms)
                }
            },
            None => after_cue(s, deck, title, cursor, cue, now_ms),
        },
        Stage::CueName { deck, title, cursor, cue } => after_cue(
            SessionView {
                found_cues: s.found_cues.push(
                    crossing_event(title, cue as nat, deck as nat, text_of(reply)),
                ),
                ..s
            },
            deck,
            title,
            cursor,
            cue,
            now_ms,
        ),
        _ => p,
    }
}

/// The state after a pause. A resting poller that is no longer active stops; one whose
/// engine cannot be asked yet goes on resting; otherwise a tick begins, with nothing
/// found so far. In any other stage nothing changes.
pub open spec fn woke(p: PollerView, active: bool, ready: bool) -> PollerView {
    match p.stage {
        Stage::Resting => if !active {
            PollerView { stage: Stage::Stopped, session: p.session }
        } else if !ready {
            p
        } else {
            PollerView {
                stage: Stage::ActiveDeck,
                session: SessionView { found_master: None, found_cues: Seq::empty(), ..p.session },
            }
        },
        _ => p,
    }
}

/// The state after a connection attempt: the outcome goes to the delivery client, which
/// calls for another attempt or ends the send; the poller rests when the send has ended,
/// whether or not the message was delivered. In a stage that sends nothing, nothing
/// changes.
pub open spec fn sent(p: PollerView, delivered: bool, now_ms: nat) -> PollerView {
    match p.stage {
        Stage::Sending { message, attempt, .. } => {
            let (client, step) = attempted(p.session.client, attempt as nat, delivered, now_ms);
            let session = SessionView { client, ..p.session };
            match step {
                SendStep::Attempt { attempt: next, pause_ms } => PollerView {
                    stage: Stage::Sending { message, attempt: next, pause_ms },
                    session,
                },
                _ => PollerView { stage: Stage::Resting, session },
            }
        },
        _ => p,
    }
}

/// The state after an event that arrives at the time `now_ms`.
pub open spec fn advanced(p: PollerView, event: Event<Seq<char>>, now_ms: nat) -> PollerView {
    match event {
        Event::Woke { active, ready } => woke(p, active, ready),
        Event::Answered(reply) => answered(p, reply, now_ms),
        Event::Sent { delivered } => sent(p, delivered, now_ms),
    }
}

/// The state of a poller that was just made for a client in the state `client`.
pub open spec fn initial(client: ClientView) -> PollerView {
    PollerView {
        stage: Stage::Resting,
        session: SessionView {
            armed: Set::empty(),
            master: Seq::empty(),
            client,
            found_master: None,
            found_cues: Seq::empty(),
        },
    }
}

/// What the poller keeps from stage to stage: the two trackers, the delivery client and
/// the finds of the present tick.
struct Session {
    cues: CueTracker,
    master: MasterTracker,
    client: TcpClient,
    found_master: Option<MasterEvent>,
    found_cues: Vec<HotcueEvent>,
}

impl Session {
    spec fn view(&self) -> SessionView {
        SessionView {
            armed: self.cues@,
            master: self.master@,
            client: self.client@,
            found_master: master_view(self.found_master),
            found_cues: hotcues_view(self.found_cues@),
        }
    }
}

/// The poller: the stage it stands at, and what it keeps from stage to stage. It lives
/// as long as the worker that runs it; nothing of it is stored.
pub struct StatePoller {
    stage: Stage<String>,
    session: Session,
}

fn deliver(session: Session, now_ms: u64) -> (next: StatePoller)
    ensures
        next@ == delivery_started(session@, now_ms as nat),
{
    let Session { cues, master, mut client, found_master, found_cues } = session;
    let ghost before = session@;
    match EventPayload::assemble(found_master, found_cues) {
        None => {
            let next = StatePoller {
                stage: Stage::Resting,
                session: Session { cues, master, client, found_master: None, found_cues: Vec::new() },
            };
            assert(next.session@.found_cues =~= before.found_cues);
            next
        },
        Some(payload) => {
            let message = encode_payload(&payload);
            let step = client.begin_send(now_ms);
            let EventPayload { master: found_master, cues: found } = payload;
            let found_cues = match found {
                Some(events) => events,
                None => Vec::new(),
            };
            let session = Session { cues, master, client, found_master, found_cues };
            assert(session@.found_cues =~= before.found_cues);
            match step {
                SendStep::Attempt { attempt, pause_ms } => StatePoller {
                    stage: Stage::Sending { message, attempt, pause_ms },
                    session,
                },
                _ => StatePoller { stage: Stage::Resting, session },
            }
        },
    }
}

fn pass_deck(session: Session, deck: u32, now_ms: u64) -> (next: StatePoller)
    ensures
        next@ == after_deck(session@, deck, now_ms as nat),
{
    if deck < DECKS {
        StatePoller { stage: Stage::Audible { deck: deck + 1 }, session }
    } else {
        deliver(session, now_ms)
    }
}

fn pass_cue(session: Session, deck: u32, title: String, cursor: i64, cue: u32, now_ms: u64) -> (next:
    StatePoller)
    ensures
        next@ == after_cue(session@, deck, title@, cursor, cue, now_ms as nat),
{
    if cue < CUES {
        StatePoller { stage: Stage::HasCue { deck, title, cursor, cue: cue + 1 }, session }
    } else {
        pass_deck(session, deck, now_ms)
    }
}

impl StatePoller {
    /// The state of the poller.
    pub closed spec fn view(&self) -> PollerView {
        PollerView { stage: self.stage@, session: self.session@ }
    }

    /// A poller at rest that delivers as `config` says. Nothing is armed and no master
    /// title is recorded.
    pub fn new(config: TcpConfig) -> (poller: Self)
        ensures
            poller@ == initial(TcpClient::new_view(config)),
    {
        let poller = StatePoller {
            stage: Stage::Resting,
            session: Session {
                cues: CueTracker::new(),
                master: MasterTracker::new(),
                client: TcpClient::new(config),
                found_master: None,
                found_cues: Vec::new(),
            },
        };
        assert(poller.session@.found_cues =~= Seq::empty());
        poller
    }

    /// Where the poller stands.
    pub fn stage(&self) -> (stage: &Stage<String>)
        ensures
            stage@ == self@.stage,
    {
        &self.stage
    }

    /// Whether a hotcue counts as reported for its present crossing.
    pub fn is_armed(&self, key: &CueKey) -> (armed: bool)
        ensures
            armed == self@.session.armed.contains(key@),
    {
        self.session.cues.is_armed(key)
    }

    /// The title of the master deck as last reported.
    pub fn master_title(&self) -> (title: &str)
        ensures
            title@ == self@.session.master,
    {
        self.session.master.recorded()
    }

    /// The delivery client's failed attempts in a row.
    pub fn failures(&self) -> (n: u32)
        ensures
            n as nat == self@.session.client.failures,
    {
        self.session.client.failures()
    }

    /// The one thing that is to happen next: see [`action_of`].
    pub fn action(&self) -> (action: Action<String>)
        ensures
            action@ == action_of(self@),
    {
        match &self.stage {
            Stage::Resting => Action::Sleep { ms: POLL_INTERVAL_MS },
            Stage::ActiveDeck => Action::Ask(Query::Text(String::from_str("get_activedeck"))),
            Stage::MasterTitle { deck } => Action::Ask(
                Query::Text(deck_command_text(*deck, "get_title")),
            ),
            Stage::Audible { deck } => Action::Ask(
                Query::Text(deck_command_text(*deck, "is_audible")),
            ),
            Stage::Title { deck } => Action::Ask(Query::Text(deck_command_text(*deck, "get_title"))),
            Stage::Position { deck, .. } => Action::Ask(
                Query::Number(deck_command_text(*deck, "get_position")),
            ),
            Stage::HasCue { deck, cue, .. } => Action::Ask(
                Query::Text(cue_command_text(*deck, "has_cue", *cue)),
            ),
            Stage::CuePos { deck, cue, .. } => Action::Ask(
                Query::Number(cue_command_text(*deck, "cue_pos", *cue)),
            ),
            Stage::CueName { deck, cue, .. } => Action::Ask(
                Query::Text(cue_command_text(*deck, "cue_name", *cue)),
            ),
            Stage::Sending { message, pause_ms, .. } => Action::Connect {
                pause_ms: *pause_ms,
                address: self.session.client.address(),
                message: message.clone(),
            },
            Stage::Stopped => Action::Stop,
        }
    }

    /// Moves the poller on by one event, which arrives at the time `now_ms` of a clock
    /// that counts milliseconds: see [`advanced`].
    pub fn advance(self, event: Event<String>, now_ms: u64) -> (next: Self)
        ensures
            next@ == advanced(self@, event@, now_ms as nat),
    {
        match event {
            Event::Woke { active, ready } => self.on_wake(active, ready),
            Event::Answered(reply) => self.on_answer(reply, now_ms),
            Event::Sent { delivered } => self.on_sent(delivered, now_ms),
        }
    }

    fn on_wake(self, active: bool, ready: bool) -> (next: Self)
        ensures
            next@ == woke(self@, active, ready),
    {
        let StatePoller { stage, session } = self;
        match stage {
            Stage::Resting => {
                if !active {
                    StatePoller { stage: Stage::Stopped, session }
                } else if !ready {
                    StatePoller { stage: Stage::Resting, session }
                } else {
                    let Session { cues, master, client, found_master: _, found_cues: _ } = session;
                    let next = StatePoller {
                        stage: Stage::ActiveDeck,
                        session: Session {
                            cues,
                            master,
                            client,
                            found_master: None,
                            found_cues: Vec::new(),
                        },
                    };
                    assert(next.session@.found_cues =~= Seq::empty());
                    next
                }
            },
            other => StatePoller { stage: other, session },
        }
    }

    fn on_sent(self, delivered: bool, now_ms: u64) -> (next: Self)
        ensures
            next@ == sent(self@, delivered, now_ms as nat),
    {
        let StatePoller { stage, session } = self;
        match stage {
            Stage::Sending { message, attempt, pause_ms: _ } => {
                let Session { cues, master, mut client, found_master, found_cues } = session;
                let step = client.record_attempt(attempt, delivered, now_ms);
                let session = Session { cues, master, client, found_master, found_cues };
                match step {
                    SendStep::Attempt { attempt: next, pause_ms } => StatePoller {
                        stage: Stage::Sending { message, attempt: next, pause_ms },
                        session,
                    },
                    _ => StatePoller { stage: Stage::Resting, session },
                }
            },
            other => StatePoller { stage: other, session },
        }
    }

    fn on_answer(self, reply: Reply<String>, now_ms: u64) -> (next: Self)
        ensures
            next@ == answered(self@, reply@, now_ms as nat),
    {
        let StatePoller { stage, session } = self;
        match stage {
            Stage::ActiveDeck => {
                let answer = reply.into_text_or_empty();
                match parse_active_deck(answer.as_str()) {
                    Some(deck) => StatePoller { stage: Stage::MasterTitle { deck }, session },
                    None => StatePoller { stage: Stage::Audible { deck: 1 }, session },
                }
            },
            Stage::MasterTitle { deck: _ } => {
                let Session { cues, mut master, client, found_master: _, found_cues } = session;
                let found_master = master.observe(reply.into_text_or_empty());
                StatePoller {
                    stage: Stage::Audible { deck: 1 },
                    session: Session { cues, master, client, found_master, found_cues },
                }
            },
            Stage::Audible { deck } => {
                let flag = reply.into_text_or_empty();
                if is_audible(flag.as_str()) {
                    StatePoller { stage: Stage::Title { deck }, session }
                } else {
                    pass_deck(session, deck, now_ms)
                }
            },
            Stage::Title { deck } => {
                let title = reply.into_text_or_empty();
                if !title.as_str().is_empty() {
                    StatePoller { stage: Stage::Position { deck, title }, session }
                } else {
                    pass_deck(session, deck, now_ms)
                }
            },
            Stage::Position { deck, title } => {
                match reply.number() {
                    Some(cursor) => if cursor >= 0 {
                        StatePoller { stage: Stage::HasCue { deck, title, cursor, cue: 1 }, session }
                    } else {
                        pass_deck(session, deck, now_ms)
                    },
                    None => pass_deck(session, deck, now_ms),
                }
            },
            Stage::HasCue { deck, title, cursor, cue } => {
                let flag = reply.into_text_or_empty();
                if is_cue_set(flag.as_str()) {
                    StatePoller { stage: Stage::CuePos { deck, title, cursor, cue }, session }
                } else {
                    pass_cue(session, deck, title, cursor, cue, now_ms)
                }
            },
            Stage::CuePos { deck, title, cursor, cue } => {
                match reply.number() {
                    Some(marker) => {
                        let Session { mut cues, master, client, found_master, found_cues } = session;
                        let emit = cues.observe(CueKey { title: title.clone(), cue }, cursor, marker);
                        let session = Session { cues, master, client, found_master, found_cues };
                        if emit {
                            StatePoller { stage: Stage::CueName { deck, title, cursor, cue }, session }
                        } else {
                            pass_cue(session, deck, title, cursor, cue, now_ms)
                        }
                    },
                    None => pass_cue(session, deck, title, cursor, cue, now_ms),
                }
            },
            Stage::CueName { deck, title, cursor, cue } => {
                let Session { cues, master, client, found_master, mut found_cues } = session;
                let ghost before = found_cues@;
                let event = HotcueEvent::crossing(title.clone(), cue, deck, reply.into_text());
                found_cues.push(event);
                assert(hotcues_view(found_cues@) =~= hotcues_view(before).push(event@));
                let session = Session { cues, master, client, found_master, found_cues };
                pass_cue(session, deck, title, cursor, cue, now_ms)
            },
            other => StatePoller { stage: other, session },
        }
    }
}

/// A tick that found nothing ends at rest: no connection is called for, and the delivery
/// client is not touched.
pub proof fn lemma_quiet_tick_rests(s: SessionView, now_ms: nat)
    requires
        s.found_master is None,
        s.found_cues.len() == 0,
    ensures
        delivery_started(s, now_ms) == (PollerView { stage: Stage::Resting, session: s }),
        action_of(delivery_started(s, now_ms)) == (Action::<Seq<char>>::Sleep {
            ms: POLL_INTERVAL_MS,
        }),
{
}

/// A send begins only at the end of a tick that found something: where an event moves
/// the poller into a send, the tick's finds are not empty and the message is their
/// payload's wire form.
pub proof fn lemma_send_carries_finds(p: PollerView, event: Event<Seq<char>>, now_ms: nat)
    requires
        !(p.stage is Sending),
        advanced(p, event, now_ms).stage is Sending,
    ensures
        ({
            let next = advanced(p, event, now_ms);
            &&& (next.session.found_master is Some || next.session.found_cues.len() > 0)
            &&& assembled(next.session.found_master, next.session.found_cues) matches Some(payload)
                && next.stage->message == payload_json(payload)
        }),
{
}

/// A crossing is added to the tick's finds only when the cue tracker reported it: the
/// name of a hotcue is asked for only after a sighting that fires.
pub proof fn lemma_name_asked_only_after_firing(
    p: PollerView,
    event: Event<Seq<char>>,
    now_ms: nat,
)
    requires
        !(p.stage is CueName),
        advanced(p, event, now_ms).stage is CueName,
    ensures
        p.stage matches Stage::CuePos { title, cursor, cue, .. } && event matches Event::Answered(
            Reply::Number(marker),
        ) && fires(
            p.session.armed,
            Sighting {
                key: CueKeyView { title, cue: cue as nat },
                cursor: cursor as int,
                marker: marker as int,
            },
        ),
{
}

/// The decks that are still to be asked when deck `deck` is.
pub open spec fn decks_from(deck: u32) -> int {
    if deck < DECKS {
        DECKS - deck + 1
    } else {
        1
    }
}

/// The hotcues that are still to be asked about when hotcue `cue` is.
pub open spec fn cues_from(cue: u32) -> int {
    if cue < CUES {
        CUES - cue + 1
    } else {
        1
    }
}

/// A bound on the questions that a tick still asks, the pending one included. A deck
/// takes at most 387 questions: whether it can be heard, its title, its position, and
/// three for each of its 128 hotcues. The bound is zero exactly in the stages that await
/// no answer.
pub open spec fn questions_left(stage: Stage<Seq<char>>) -> int {
    match stage {
        Stage::ActiveDeck => 2 + 387 * decks_from(1),
        Stage::MasterTitle { .. } => 1 + 387 * decks_from(1),
        Stage::Audible { deck } => 387 * decks_from(deck),
        Stage::Title { deck } => 387 * decks_from(deck) - 1,
        Stage::Position { deck, .. } => 387 * decks_from(deck) - 2,
        Stage::HasCue { deck, cue, .. } => 387 * (decks_from(deck) - 1) + 3 * cues_from(cue),
        Stage::CuePos { deck, cue, .. } => 387 * (decks_from(deck) - 1) + 3 * cues_from(cue) - 1,
        Stage::CueName { deck, cue, .. } => 387 * (decks_from(deck) - 1) + 3 * cues_from(cue) - 2,
        _ => 0,
    }
}

/// Every tick ends: each answer brings the poller nearer to the end of its tick, which
/// begins at most 1550 questions away, whatever the engine answers.
pub proof fn lemma_tick_ends(p: PollerView, reply: Reply<Seq<char>>, now_ms: nat)
    requires
        questions_left(p.stage) > 0,
    ensures
        0 <= questions_left(answered(p, reply, now_ms).stage) < questions_left(p.stage),
        questions_left(Stage::ActiveDeck) == 1550,
        387 == 3 + 3 * CUES,
{
}

/// Every send ends: a failed attempt is followed by the next one for the same message,
/// after the fixed pause and while the configuration allows one, or by rest.
pub proof fn lemma_send_ends(p: PollerView, delivered: bool, now_ms: nat)
    requires
        p.stage is Sending,
        p.session.client.max_retries <= u32::MAX,
    ensures
        match sent(p, delivered, now_ms).stage {
            Stage::Sending { message, attempt, pause_ms } => {
                &&& !delivered
                &&& message == p.stage->message
                &&& attempt == p.stage->attempt + 1
                &&& attempt < p.session.client.max_retries
                &&& pause_ms == RETRY_PAUSE_MS
            },
            stage => stage is Resting,
        },
{
}

/// The crossings of a tick are kept in the order found: an event other than the start
/// of a tick leaves them as they are or adds one at the end.
pub proof fn lemma_finds_keep_their_order(p: PollerView, event: Event<Seq<char>>, now_ms: nat)
    requires
        !(event is Woke),
    ensures
        ({
            let before = p.session.found_cues;
            let after = advanced(p, event, now_ms).session.found_cues;
            after == before || (after.len() == before.len() + 1 && after.drop_last() == before)
        }),
{
    let before = p.session.found_cues;
    let after = advanced(p, event, now_ms).session.found_cues;
    if after != before {
        assert(after.drop_last() =~= before);
    }
}

} // verus!
