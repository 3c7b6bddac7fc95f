//! The events that the poller reports, and the payload that carries them.

use crate::text::{decimal, decimal_string};
use vstd::prelude::*;

verus! {

/// A command attached to a hotcue. It is produced elsewhere and carried as it is.
#[derive(Debug, Clone)]
pub struct Command {
    pub command_type: String,
    pub name: String,
    pub value: Option<String>,
    pub source: Option<String>,
    pub filter: Option<String>,
    pub add: Option<bool>,
    pub rand: Option<bool>,
}

/// One detected crossing of a hotcue.
#[derive(Debug, Clone)]
pub struct HotcueEvent {
    pub title: String,
    pub cue: String,
    pub deck: String,
    pub cue_name: Option<String>,
    pub commands: Option<Vec<Command>>,
}

/// A change of the master deck's title.
#[derive(Debug, Clone)]
pub struct MasterEvent {
    pub title: String,
    pub cue: String,
}

/// What one tick of the poller sends to the consumer.
#[derive(Debug, Clone)]
pub struct EventPayload {
    pub master: Option<MasterEvent>,
    pub cues: Option<Vec<HotcueEvent>>,
}

/// The mathematical content of a [`Command`].
pub struct CommandView {
    pub command_type: Seq<char>,
    pub name: Seq<char>,
    pub value: Option<Seq<char>>,
    pub source: Option<Seq<char>>,
    pub filter: Option<Seq<char>>,
    pub add: Option<bool>,
    pub rand: Option<bool>,
}

/// The mathematical content of a [`HotcueEvent`].
pub struct HotcueEventView {
    pub title: Seq<char>,
    pub cue: Seq<char>,
    pub deck: Seq<char>,
    pub cue_name: Option<Seq<char>>,
    pub commands: Option<Seq<CommandView>>,
}

/// The mathematical content of a [`MasterEvent`].
pub struct MasterEventView {
    pub title: Seq<char>,
    pub cue: Seq<char>,
}

/// The mathematical content of an [`EventPayload`].
pub struct EventPayloadView {
    pub master: Option<MasterEventView>,
    pub cues: Option<Seq<HotcueEventView>>,
}

/// The content of an optional text.
pub open spec fn text_view(text: Option<String>) -> Option<Seq<char>> {
    match text {
        Some(t) => Some(t@),
        None => None,
    }
}

/// The contents of a row of commands.
pub open spec fn commands_view(commands: Seq<Command>) -> Seq<CommandView> {
    commands.map_values(|c: Command| c@)
}

/// The contents of a row of hotcue events.
pub open spec fn hotcues_view(events: Seq<HotcueEvent>) -> Seq<HotcueEventView> {
    events.map_values(|e: HotcueEvent| e@)
}

/// The content of an optional master event.
pub open spec fn master_view(event: Option<MasterEvent>) -> Option<MasterEventView> {
    match event {
        Some(e) => Some(e@),
        None => None,
    }
}

/// The marker that every master event carries in place of a cue number.
pub open spec fn master_marker() -> Seq<char> {
    "master"@
}

impl View for Command {
    type V = CommandView;

    open spec fn view(&self) -> CommandView {
        CommandView {
            command_type: self.command_type@,
            name: self.name@,
            value: text_view(self.value),
            source: text_view(self.source),
            filter: text_view(self.filter),
            add: self.add,
            rand: self.rand,
        }
    }
}

impl View for HotcueEvent {
    type V = HotcueEventView;

    open spec fn view(&self) -> HotcueEventView {
        HotcueEventView {
            title: self.title@,
            cue: self.cue@,
            deck: self.deck@,
            cue_name: text_view(self.cue_name),
            commands: match self.commands {
                Some(cs) => Some(commands_view(cs@)),
                None => None,
            },
        }
    }
}

impl View for MasterEvent {
    type V = MasterEventView;

    open spec fn view(&self) -> MasterEventView {
        MasterEventView { title: self.title@, cue: self.cue@ }
    }
}

impl View for EventPayload {
    type V = EventPayloadView;

    open spec fn view(&self) -> EventPayloadView {
        EventPayloadView {
            master: master_view(self.master),
            cues: match self.cues {
                Some(es) => Some(hotcues_view(es@)),
                None => None,
            },
        }
    }
}

/// The event for a crossing of hotcue `cue` on deck `deck`: both numbers are carried in
/// decimal, as texts, and no command is attached.
pub open spec fn crossing_event(
    title: Seq<char>,
    cue: nat,
    deck: nat,
    cue_name: Option<Seq<char>>,
) -> HotcueEventView {
    HotcueEventView { title, cue: decimal(cue), deck: decimal(deck), cue_name, commands: None }
}

/// The event for a master deck that now plays `title`.
pub open spec fn master_change(title: Seq<char>) -> MasterEventView {
    MasterEventView { title, cue: master_marker() }
}

/// The payload for what one tick found, if it found anything: the master event, if any, and
/// the crossings in the order found, if there are any.
pub open spec fn assembled(
    master: Option<MasterEventView>,
    cues: Seq<HotcueEventView>,
) -> Option<EventPayloadView> {
    if master is None && cues.len() == 0 {
        None
    } else {
        Some(
            EventPayloadView {
                master,
                cues: if cues.len() == 0 {
                    None
                } else {
                    Some(cues)
                },
            },
        )
    }
}

impl HotcueEvent {
    /// Builds the event for a crossing: see [`crossing_event`].
    pub fn crossing(title: String, cue: u32, deck: u32, cue_name: Option<String>) -> (event: Self)
        ensures
            event@ == crossing_event(title@, cue as nat, deck as nat, text_view(cue_name)),
    {
        HotcueEvent {
            title,
            cue: decimal_string(cue),
            deck: decimal_string(deck),
            cue_name,
            commands: None,
        }
    }
}

impl MasterEvent {
    /// Builds the event for a master deck that now plays `title`.
    pub fn change(title: String) -> (event: Self)
        ensures
            event@ == master_change(title@),
    {
        MasterEvent { title, cue: String::from_str("master") }
    }
}

impl EventPayload {
    /// Puts together what one tick found. A payload with neither a master event nor a
    /// crossing is never built.
    pub fn assemble(master: Option<MasterEvent>, cues: Vec<HotcueEvent>) -> (payload: Option<Self>)
        ensures
            match payload {
                Some(p) => assembled(master_view(master), hotcues_view(cues@)) == Some(p@),
                None => assembled(master_view(master), hotcues_view(cues@)) is None,
            },
    {
        if master.is_none() && cues.len() == 0 {
            None
        } else if cues.len() == 0 {
            Some(EventPayload { master, cues: None })
        } else {
            Some(EventPayload { master, cues: Some(cues) })
        }
    }
}

} // verus!
