//! The wire form of a payload: compact JSON in which an absent field is left out.

use crate::events::{
    commands_view, hotcues_view, Command, CommandView, EventPayload, EventPayloadView,
    HotcueEvent, HotcueEventView, MasterEvent, MasterEventView,
};
use vstd::prelude::*;

verus! {

/// The lower-case hexadecimal digit of a number below sixteen.
pub open spec fn hex_char(n: nat) -> char
    recommends
        n < 16,
{
    if n < 10 {
        ((48 + n) as u8) as char
    } else {
        ((87 + n) as u8) as char
    }
}

/// How one character stands inside a JSON string: the quote, the backslash and the control
/// characters are escaped, every other character stands for itself.
pub open spec fn escape_char(c: char) -> Seq<char> {
    let u = c as u32;
    if u == 0x22 {
        seq!['\\', '"']
    } else if u == 0x5C {
        seq!['\\', '\\']
    } else if u == 0x08 {
        seq!['\\', 'b']
    } else if u == 0x09 {
        seq!['\\', 't']
    } else if u == 0x0A {
        seq!['\\', 'n']
    } else if u == 0x0C {
        seq!['\\', 'f']
    } else if u == 0x0D {
        seq!['\\', 'r']
    } else if u < 0x20 {
        seq!['\\', 'u', '0', '0', hex_char((u / 16) as nat), hex_char((u % 16) as nat)]
    } else {
        seq![c]
    }
}

/// A text with each of its characters escaped.
pub open spec fn escaped(s: Seq<char>) -> Seq<char>
    decreases s.len(),
{
    if s.len() == 0 {
        Seq::empty()
    } else {
        escaped(s.drop_last()) + escape_char(s.last())
    }
}

/// A text as a JSON string: escaped, between quotes.
pub open spec fn json_string(s: Seq<char>) -> Seq<char> {
    seq!['"'] + escaped(s) + seq!['"']
}

/// A truth value as JSON.
pub open spec fn json_bool(b: bool) -> Seq<char> {
    if b {
        "true"@
    } else {
        "false"@
    }
}

/// The given JSON texts, separated by commas.
pub open spec fn joined(items: Seq<Seq<char>>) -> Seq<char>
    decreases items.len(),
{
    if items.len() == 0 {
        Seq::empty()
    } else if items.len() == 1 {
        items[0]
    } else {
        joined(items.drop_last()) + ","@ + items.last()
    }
}

/// The given JSON texts as a JSON array.
pub open spec fn json_array(items: Seq<Seq<char>>) -> Seq<char> {
    "["@ + joined(items) + "]"@
}

/// A member of a JSON object that is left out when it has no value: `lead` holds the
/// separator, the name and the colon.
pub open spec fn optional(lead: Seq<char>, value: Option<Seq<char>>) -> Seq<char> {
    match value {
        Some(v) => lead + v,
        None => Seq::empty(),
    }
}

/// An optional text as an optional JSON string.
pub open spec fn quoted(text: Option<Seq<char>>) -> Option<Seq<char>> {
    match text {
        Some(t) => Some(json_string(t)),
        None => None,
    }
}

/// An optional truth value as optional JSON.
pub open spec fn flagged(flag: Option<bool>) -> Option<Seq<char>> {
    match flag {
        Some(b) => Some(json_bool(b)),
        None => None,
    }
}

/// The wire form of a command.
pub open spec fn command_json(c: CommandView) -> Seq<char> {
    "{\"type\":"@ + json_string(c.command_type) + ",\"name\":"@ + json_string(c.name) + optional(
        ",\"value\":"@,
        quoted(c.value),
    ) + optional(",\"source\":"@, quoted(c.source)) + optional(",\"filter\":"@, quoted(c.filter))
        + optional(",\"add\":"@, flagged(c.add)) + optional(",\"rand\":"@, flagged(c.rand)) + "}"@
}

/// The wire forms of a row of commands.
pub open spec fn commands_json(commands: Seq<CommandView>) -> Seq<Seq<char>> {
    commands.map_values(|c: CommandView| command_json(c))
}

/// The wire form of a hotcue event.
pub open spec fn hotcue_json(e: HotcueEventView) -> Seq<char> {
    "{\"title\":"@ + json_string(e.title) + ",\"cue\":"@ + json_string(e.cue) + ",\"deck\":"@
        + json_string(e.deck) + optional(",\"cue_name\":"@, quoted(e.cue_name)) + optional(
        ",\"commands\":"@,
        match e.commands {
            Some(cs) => Some(json_array(commands_json(cs))),
            None => None,
        },
    ) + "}"@
}

/// The wire forms of a row of hotcue events.
pub open spec fn hotcues_json(events: Seq<HotcueEventView>) -> Seq<Seq<char>> {
    events.map_values(|e: HotcueEventView| hotcue_json(e))
}

/// The wire form of a master event.
pub open spec fn master_json(m: MasterEventView) -> Seq<char> {
    "{\"title\":"@ + json_string(m.title) + ",\"cue\":"@ + json_string(m.cue) + "}"@
}

/// The wire form of a payload.
pub open spec fn payload_json(p: EventPayloadView) -> Seq<char> {
    "{"@ + optional(
        "\"master\":"@,
        match p.master {
            Some(m) => Some(master_json(m)),
            None => None,
        },
    ) + (if p.master is Some && p.cues is Some {
        ","@
    } else {
        Seq::empty()
    }) + optional(
        "\"cues\":"@,
        match p.cues {
            Some(es) => Some(json_array(hotcues_json(es))),
            None => None,
        },
    ) + "}"@
}

/// Calls `serde_json::to_string` on a string slice. For a string slice the serializer
/// writes an opening quote, the characters with the quote, the backslash and the
/// characters below U+0020 escaped, and a closing quote. It writes into a vector, and
/// the only errors that it can report here are those of its writer, so the call succeeds.
#[verifier::external_body]
fn quote(text: &str) -> (out: Option<String>)
    ensures
        out is Some,
        out matches Some(q) ==> q@ == json_string(text@),
{
    serde_json::to_string(text).ok()
}

fn append_string(out: &mut String, text: &str)
    ensures
        final(out)@ == old(out)@ + json_string(text@),
{
    let q = quote(text).unwrap();
    out.append(q.as_str());
}

fn append_optional_string(out: &mut String, lead: &str, text: &Option<String>)
    ensures
        final(out)@ == old(out)@ + optional(lead@, quoted(crate::events::text_view(*text))),
{
    match text {
        Some(t) => {
            out.append(lead);
            append_string(out, t.as_str());
            assert(out@ =~= old(out)@ + (lead@ + json_string(t@)));
        },
        None => {
            assert(out@ =~= old(out)@ + Seq::<char>::empty());
        },
    }
}

fn append_optional_flag(out: &mut String, lead: &str, flag: Option<bool>)
    ensures
        final(out)@ == old(out)@ + optional(lead@, flagged(flag)),
{
    match flag {
        Some(b) => {
            out.append(lead);
            if b {
                out.append("true");
            } else {
                out.append("false");
            }
            assert(out@ =~= old(out)@ + (lead@ + json_bool(b)));
        },
        None => {
            assert(out@ =~= old(out)@ + Seq::<char>::empty());
        },
    }
}

/// Encodes a command.
pub fn encode_command(command: &Command) -> (json: String)
    ensures
        json@ == command_json(command@),
{
    let mut out = String::from_str("{\"type\":");
    append_string(&mut out, command.command_type.as_str());
    out.append(",\"name\":");
    append_string(&mut out, command.name.as_str());
    append_optional_string(&mut out, ",\"value\":", &command.value);
    append_optional_string(&mut out, ",\"source\":", &command.source);
    append_optional_string(&mut out, ",\"filter\":", &command.filter);
    append_optional_flag(&mut out, ",\"add\":", command.add);
    append_optional_flag(&mut out, ",\"rand\":", command.rand);
    out.append("}");
    out
}

fn append_commands(out: &mut String, commands: &Vec<Command>)
    ensures
        final(out)@ == old(out)@ + json_array(commands_json(commands_view(commands@))),
{
    let ghost items = commands_json(commands_view(commands@));
    out.append("[");
    let mut i: usize = 0;
    assert(joined(items.take(0)) =~= Seq::<char>::empty());
    while i < commands.len()
        invariant
            i <= commands.len(),
            items == commands_json(commands_view(commands@)),
            out@ == old(out)@ + "["@ + joined(items.take(i as int)),
        decreases commands.len() - i,
    {
        if i > 0 {
            out.append(",");
        }
        let item = encode_command(&commands[i]);
        out.append(item.as_str());
        proof {
            assert(items.take(i + 1).drop_last() =~= items.take(i as int));
            assert(items.take(i + 1).last() == item@);
            assert(out@ =~= old(out)@ + "["@ + joined(items.take(i + 1)));
        }
        i += 1;
    }
    assert(items.take(i as int) =~= items);
    out.append("]");
    assert(out@ =~= old(out)@ + json_array(items));
}

/// Encodes a hotcue event.
pub fn encode_hotcue(event: &HotcueEvent) -> (json: String)
    ensures
        json@ == hotcue_json(event@),
{
    let mut out = String::from_str("{\"title\":");
    append_string(&mut out, event.title.as_str());
    out.append(",\"cue\":");
    append_string(&mut out, event.cue.as_str());
    out.append(",\"deck\":");
    append_string(&mut out, event.deck.as_str());
    append_optional_string(&mut out, ",\"cue_name\":", &event.cue_name);
    let ghost before = out@;
    match &event.commands {
        Some(cs) => {
            out.append(",\"commands\":");
            append_commands(&mut out, cs);
            assert(out@ =~= before + (",\"commands\":"@ + json_array(
                commands_json(commands_view(cs@)),
            )));
        },
        None => {
            assert(out@ =~= before + Seq::<char>::empty());
        },
    }
    out.append("}");
    out
}

/// Encodes a master event.
pub fn encode_master(event: &MasterEvent) -> (json: String)
    ensures
        json@ == master_json(event@),
{
    let mut out = String::from_str("{\"title\":");
    append_string(&mut out, event.title.as_str());
    out.append(",\"cue\":");
    append_string(&mut out, event.cue.as_str());
    out.append("}");
    out
}

fn append_hotcues(out: &mut String, events: &Vec<HotcueEvent>)
    ensures
        final(out)@ == old(out)@ + json_array(hotcues_json(hotcues_view(events@))),
{
    let ghost items = hotcues_json(hotcues_view(events@));
    out.append("[");
    let mut i: usize = 0;
    assert(joined(items.take(0)) =~= Seq::<char>::empty());
    while i < events.len()
        invariant
            i <= events.len(),
            items == hotcues_json(hotcues_view(events@)),
            out@ == old(out)@ + "["@ + joined(items.take(i as int)),
        decreases events.len() - i,
    {
        if i > 0 {
            out.append(",");
        }
        let item = encode_hotcue(&events[i]);
        out.append(item.as_str());
        proof {
            assert(items.take(i + 1).drop_last() =~= items.take(i as int));
            assert(items.take(i + 1).last() == item@);
            assert(out@ =~= old(out)@ + "["@ + joined(items.take(i + 1)));
        }
        i += 1;
    }
    assert(items.take(i as int) =~= items);
    out.append("]");
    assert(out@ =~= old(out)@ + json_array(items));
}

/// Encodes a payload for the wire.
pub fn encode_payload(payload: &EventPayload) -> (json: String)
    ensures
        json@ == payload_json(payload@),
{
    let mut out = String::from_str("{");
    let ghost start = out@;
    match &payload.master {
        Some(m) => {
            out.append("\"master\":");
            let item = encode_master(m);
            out.append(item.as_str());
            assert(out@ =~= start + ("\"master\":"@ + master_json(m@)));
        },
        None => {
            assert(out@ =~= start + Seq::<char>::empty());
        },
    }
    let ghost with_master = out@;
    match &payload.cues {
        Some(es) => {
            if payload.master.is_some() {
                out.append(",");
            } else {
                assert(out@ =~= with_master + Seq::<char>::empty());
            }
            let ghost separated = out@;
            out.append("\"cues\":");
            append_hotcues(&mut out, es);
            assert(out@ =~= separated + ("\"cues\":"@ + json_array(
                hotcues_json(hotcues_view(es@)),
            )));
        },
        None => {
            assert(out@ =~= with_master + Seq::<char>::empty() + Seq::<char>::empty());
        },
    }
    out.append("}");
    out
}

impl Command {
    /// The wire form of this command.
    pub fn to_json(&self) -> (json: String)
        ensures
            json@ == command_json(self@),
    {
        encode_command(self)
    }
}

impl HotcueEvent {
    /// The wire form of this event.
    pub fn to_json(&self) -> (json: String)
        ensures
            json@ == hotcue_json(self@),
    {
        encode_hotcue(self)
    }
}

impl MasterEvent {
    /// The wire form of this event.
    pub fn to_json(&self) -> (json: String)
        ensures
            json@ == master_json(self@),
    {
        encode_master(self)
    }
}

impl EventPayload {
    /// The wire form of this payload.
    pub fn to_json(&self) -> (json: String)
        ensures
            json@ == payload_json(self@),
    {
        encode_payload(self)
    }
}

} // verus!
