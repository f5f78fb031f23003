//! The player's commands as values, and what each does to the properties.
//!
//! A command reads and writes the properties `playing`, `current_track`,
//! `volume` and `playlist`. Running one returns the events that it raised, in
//! order: one change event for each property that it gave a value to, then
//! the event that the command was run.

use vstd::prelude::*;
use crate::properties::{
    event_models,
    table_set,
    table_set_events,
    texts,
    Core,
    EventModel,
    EventType,
    PropertyValue,
    Table,
    ValueModel,
};
use crate::sample::{clamp_level, clamp_unit};

verus! {

/// A command with its argument, if it takes one. An argument that is missing
/// or unusable is `None`, and the command then changes nothing.
#[derive(Debug, Clone, PartialEq)]
pub enum Command {
    /// Make a track the current one and start playback.
    Play(Option<String>),
    /// Turn playback off.
    Pause,
    /// Turn playback off and forget the current track.
    Stop,
    /// Set the volume, limited to the range from zero to one.
    Volume(Option<u32>),
    /// Append a track to the playlist.
    Add(Option<String>),
    /// Remove every occurrence of a track from the playlist.
    Remove(Option<String>),
    /// Go to the track after the current one in the playlist.
    Next,
    /// Go to the track before the current one in the playlist.
    Prev,
    /// A command that the player does not know. It only raises its event.
    Other(String),
}

/// [`Command`] with its texts as sequences of characters.
pub enum CommandModel {
    Play(Option<Seq<char>>),
    Pause,
    Stop,
    Volume(Option<u32>),
    Add(Option<Seq<char>>),
    Remove(Option<Seq<char>>),
    Next,
    Prev,
    Other(Seq<char>),
}

pub open spec fn text_of(text: Option<String>) -> Option<Seq<char>> {
    match text {
        Some(s) => Some(s@),
        None => None,
    }
}

impl View for Command {
    type V = CommandModel;

    open spec fn view(&self) -> CommandModel {
        match *self {
            Command::Play(track) => CommandModel::Play(text_of(track)),
            Command::Pause => CommandModel::Pause,
            Command::Stop => CommandModel::Stop,
            Command::Volume(level) => CommandModel::Volume(level),
            Command::Add(track) => CommandModel::Add(text_of(track)),
            Command::Remove(track) => CommandModel::Remove(text_of(track)),
            Command::Next => CommandModel::Next,
            Command::Prev => CommandModel::Prev,
            Command::Other(name) => CommandModel::Other(name@),
        }
    }
}

/// The name under which a command is reported.
pub open spec fn command_name(command: CommandModel) -> Seq<char> {
    match command {
        CommandModel::Play(_) => "play"@,
        CommandModel::Pause => "pause"@,
        CommandModel::Stop => "stop"@,
        CommandModel::Volume(_) => "volume"@,
        CommandModel::Add(_) => "add"@,
        CommandModel::Remove(_) => "remove"@,
        CommandModel::Next => "next"@,
        CommandModel::Prev => "prev"@,
        CommandModel::Other(name) => name,
    }
}

/// The command that a name stands for, with its argument: a track for the
/// commands that take one, a level for `volume`. A name that is no command of
/// the player stands for `Other`.
pub open spec fn named(name: Seq<char>, track: Option<Seq<char>>, level: Option<u32>) -> CommandModel {
    if name == "play"@ {
        CommandModel::Play(track)
    } else if name == "pause"@ {
        CommandModel::Pause
    } else if name == "stop"@ {
        CommandModel::Stop
    } else if name == "volume"@ {
        CommandModel::Volume(level)
    } else if name == "add"@ {
        CommandModel::Add(track)
    } else if name == "remove"@ {
        CommandModel::Remove(track)
    } else if name == "next"@ {
        CommandModel::Next
    } else if name == "prev"@ {
        CommandModel::Prev
    } else {
        CommandModel::Other(name)
    }
}

/// The index of the first occurrence of `track` in `list` at or after `from`.
pub open spec fn first_index(list: Seq<Seq<char>>, track: Seq<char>, from: int) -> Option<int>
    decreases list.len() - from,
{
    if from < 0 || from >= list.len() {
        None
    } else if list[from] == track {
        Some(from)
    } else {
        first_index(list, track, from + 1)
    }
}

/// `list` without any occurrence of `track`, the others in their order.
pub open spec fn without(list: Seq<Seq<char>>, track: Seq<char>) -> Seq<Seq<char>>
    decreases list.len(),
{
    if list.len() == 0 {
        Seq::empty()
    } else if list.last() == track {
        without(list.drop_last(), track)
    } else {
        without(list.drop_last(), track).push(list.last())
    }
}

/// The current track, if the property holds a text.
pub open spec fn current_track(table: Table) -> Option<Seq<char>> {
    if table.contains_key("current_track"@) && table["current_track"@] is String {
        Some(table["current_track"@]->String_0)
    } else {
        None
    }
}

/// The playlist, if the property holds a list.
pub open spec fn playlist(table: Table) -> Option<Seq<Seq<char>>> {
    if table.contains_key("playlist"@) && table["playlist"@] is StringList {
        Some(table["playlist"@]->StringList_0)
    } else {
        None
    }
}

/// The track `offset` places after the first occurrence of the current track
/// in the playlist, if there is one.
pub open spec fn neighbour(table: Table, offset: int) -> Option<Seq<char>> {
    match (current_track(table), playlist(table)) {
        (Some(current), Some(list)) => match first_index(list, current, 0) {
            Some(i) => if 0 <= i + offset < list.len() {
                Some(list[i + offset])
            } else {
                None
            },
            None => None,
        },
        _ => None,
    }
}

/// The properties and the events raised so far.
pub struct Outcome {
    pub table: Table,
    pub events: Seq<EventModel>,
}

impl Outcome {
    pub open spec fn start(table: Table) -> Outcome {
        Outcome { table, events: Seq::empty() }
    }

    /// Gives a value to a property and records the event, if one is raised.
    pub open spec fn set(self, name: Seq<char>, value: ValueModel) -> Outcome {
        Outcome {
            table: table_set(self.table, name, value),
            events: self.events + table_set_events(self.table, name),
        }
    }

    pub open spec fn go_to(self, track: Option<Seq<char>>) -> Outcome {
        match track {
            Some(track) => self.set("current_track"@, ValueModel::String(track)).set(
                "playing"@,
                ValueModel::Bool(true),
            ),
            None => self,
        }
    }
}

/// What a command does to the properties, and the change events that it
/// raises.
pub open spec fn effect(table: Table, command: CommandModel) -> Outcome {
    let start = Outcome::start(table);
    match command {
        CommandModel::Play(track) => start.go_to(track),
        CommandModel::Pause => start.set("playing"@, ValueModel::Bool(false)),
        CommandModel::Stop => start.set("playing"@, ValueModel::Bool(false)).set(
            "current_track"@,
            ValueModel::String("none"@),
        ),
        CommandModel::Volume(Some(level)) => start.set(
            "volume"@,
            ValueModel::Float(clamp_unit(level)),
        ),
        CommandModel::Add(Some(track)) => match playlist(table) {
            Some(list) => start.set("playlist"@, ValueModel::StringList(list.push(track))),
            None => start,
        },
        CommandModel::Remove(Some(track)) => match playlist(table) {
            Some(list) => start.set("playlist"@, ValueModel::StringList(without(list, track))),
            None => start,
        },
        CommandModel::Next => start.go_to(neighbour(table, 1)),
        CommandModel::Prev => start.go_to(neighbour(table, -1)),
        _ => start,
    }
}

/// Running a command: its effect, then the event that it was run.
pub open spec fn execute(table: Table, command: CommandModel) -> Outcome {
    let done = effect(table, command);
    Outcome {
        table: done.table,
        events: done.events.push(EventModel::CommandExecuted(command_name(command))),
    }
}

/// The index of the first occurrence of `track` in `list`.
pub fn position(list: &Vec<String>, track: &String) -> (r: Option<usize>)
    ensures
        r matches Some(i) ==> first_index(texts(list@), track@, 0) == Some(i as int) && i
            < list@.len(),
        r.is_none() ==> first_index(texts(list@), track@, 0).is_none(),
{
    let mut index: usize = 0;
    while index < list.len()
        invariant
            index <= list@.len(),
            first_index(texts(list@), track@, 0) == first_index(
                texts(list@),
                track@,
                index as int,
            ),
        decreases list@.len() - index,
    {
        if list[index] == *track {
            return Some(index);
        }
        index = index + 1;
    }
    None
}

/// A copy of `list` with `track` appended.
pub fn with_track(list: &Vec<String>, track: String) -> (r: Vec<String>)
    ensures
        texts(r@) == texts(list@).push(track@),
{
    let mut out: Vec<String> = Vec::new();
    let mut index: usize = 0;
    while index < list.len()
        invariant
            index <= list@.len(),
            texts(out@) == texts(list@).take(index as int),
        decreases list@.len() - index,
    {
        let copy = list[index].clone();
        proof {
            assert(texts(out@.push(copy)) =~= texts(out@).push(copy@));
            assert(texts(list@).take(index + 1) =~= texts(list@).take(index as int).push(
                list@[index as int]@,
            ));
        }
        out.push(copy);
        index = index + 1;
    }
    proof {
        assert(texts(list@).take(list@.len() as int) =~= texts(list@));
        assert(texts(out@.push(track)) =~= texts(list@).push(track@));
    }
    out.push(track);
    out
}

/// A copy of `list` without any occurrence of `track`.
pub fn without_track(list: &Vec<String>, track: &String) -> (r: Vec<String>)
    ensures
        texts(r@) == without(texts(list@), track@),
{
    let mut out: Vec<String> = Vec::new();
    let mut index: usize = 0;
    while index < list.len()
        invariant
            index <= list@.len(),
            texts(out@) == without(texts(list@).take(index as int), track@),
        decreases list@.len() - index,
    {
        proof {
            let longer = texts(list@).take(index + 1);
            assert(longer.drop_last() =~= texts(list@).take(index as int));
            assert(longer.last() == list@[index as int]@);
        }
        if !(list[index] == *track) {
            let copy = list[index].clone();
            proof {
                assert(texts(out@.push(copy)) =~= texts(out@).push(copy@));
            }
            out.push(copy);
        }
        index = index + 1;
    }
    proof {
        assert(texts(list@).take(list@.len() as int) =~= texts(list@));
    }
    out
}

fn is_name(name: &String, literal: &str) -> (same: bool)
    ensures
        same == (name@ == literal@),
{
    *name == literal.to_owned()
}

/// The command that a name stands for.
pub fn command_of(name: String, track: Option<String>, level: Option<u32>) -> (command: Command)
    ensures
        command@ == named(name@, text_of(track), level),
{
    if is_name(&name, "play") {
        Command::Play(track)
    } else if is_name(&name, "pause") {
        Command::Pause
    } else if is_name(&name, "stop") {
        Command::Stop
    } else if is_name(&name, "volume") {
        Command::Volume(level)
    } else if is_name(&name, "add") {
        Command::Add(track)
    } else if is_name(&name, "remove") {
        Command::Remove(track)
    } else if is_name(&name, "next") {
        Command::Next
    } else if is_name(&name, "prev") {
        Command::Prev
    } else {
        Command::Other(name)
    }
}

fn name_of(command: &Command) -> (name: String)
    ensures
        name@ == command_name(command@),
{
    match command {
        Command::Play(_) => "play".to_owned(),
        Command::Pause => "pause".to_owned(),
        Command::Stop => "stop".to_owned(),
        Command::Volume(_) => "volume".to_owned(),
        Command::Add(_) => "add".to_owned(),
        Command::Remove(_) => "remove".to_owned(),
        Command::Next => "next".to_owned(),
        Command::Prev => "prev".to_owned(),
        Command::Other(name) => name.clone(),
    }
}

fn apply(core: &mut Core, events: &mut Vec<EventType>, name: &str, value: PropertyValue)
    ensures
        (Outcome { table: final(core)@, events: event_models(final(events)@) }) == (Outcome {
            table: old(core)@,
            events: event_models(old(events)@),
        }).set(name@, value@),
{
    let ghost before = events@;
    match core.set_property(name, value) {
        Some(event) => {
            proof {
                assert(event_models(before.push(event)) =~= event_models(before) + seq![event@]);
            }
            events.push(event);
        },
        None => {
            proof {
                assert(event_models(before) + Seq::<EventModel>::empty() =~= event_models(before));
            }
        },
    }
}

fn go_to(core: &mut Core, events: &mut Vec<EventType>, track: Option<String>)
    ensures
        (Outcome { table: final(core)@, events: event_models(final(events)@) }) == (Outcome {
            table: old(core)@,
            events: event_models(old(events)@),
        }).go_to(text_of(track)),
{
    match track {
        Some(track) => {
            apply(core, events, "current_track", PropertyValue::String(track));
            apply(core, events, "playing", PropertyValue::Bool(true));
        },
        None => {},
    }
}

/// The track `forward` or backward of the current one in the playlist.
fn neighbour_track(core: &Core, forward: bool) -> (r: Option<String>)
    ensures
        text_of(r) == neighbour(
            core@,
            if forward {
                1
            } else {
                -1
            },
        ),
{
    match core.get_string("current_track") {
        Some(current) => match core.get_string_list("playlist") {
            Some(list) => match position(list, current) {
                Some(index) => {
                    let count = list.len();
                    if forward {
                        if index < count - 1 {
                            Some(list[index + 1].clone())
                        } else {
                            None
                        }
                    } else {
                        if index > 0 {
                            Some(list[index - 1].clone())
                        } else {
                            None
                        }
                    }
                },
                None => None,
            },
            None => None,
        },
        None => None,
    }
}

impl Core {
    /// Runs a command on the properties and returns the events that it raised,
    /// in order.
    pub fn execute_command(&mut self, command: Command) -> (events: Vec<EventType>)
        ensures
            final(self)@ == execute(old(self)@, command@).table,
            event_models(events@) == execute(old(self)@, command@).events,
    {
        let core = self;
        let mut events: Vec<EventType> = Vec::new();
        let name = name_of(&command);
        proof {
            assert(event_models(events@) =~= Seq::<EventModel>::empty());
        }
        match command {
            Command::Play(track) => {
                go_to(core, &mut events, track);
            },
            Command::Pause => {
                apply(core, &mut events, "playing", PropertyValue::Bool(false));
            },
            Command::Stop => {
                apply(core, &mut events, "playing", PropertyValue::Bool(false));
                apply(core, &mut events, "current_track", PropertyValue::String("none".to_owned()));
            },
            Command::Volume(Some(level)) => {
                apply(core, &mut events, "volume", PropertyValue::Float(clamp_level(level)));
            },
            Command::Add(Some(track)) => {
                let longer = match core.get_string_list("playlist") {
                    Some(list) => Some(with_track(list, track)),
                    None => None,
                };
                match longer {
                    Some(list) => {
                        apply(core, &mut events, "playlist", PropertyValue::StringList(list));
                    },
                    None => {},
                }
            },
            Command::Remove(Some(track)) => {
                let shorter = match core.get_string_list("playlist") {
                    Some(list) => Some(without_track(list, &track)),
                    None => None,
                };
                match shorter {
                    Some(list) => {
                        apply(core, &mut events, "playlist", PropertyValue::StringList(list));
                    },
                    None => {},
                }
            },
            Command::Next => {
                let track = neighbour_track(core, true);
                go_to(core, &mut events, track);
            },
            Command::Prev => {
                let track = neighbour_track(core, false);
                go_to(core, &mut events, track);
            },
            _ => {},
        }
        let ghost raised = events@;
        let done = EventType::CommandExecuted(name);
        proof {
            assert(event_models(raised.push(done)) =~= event_models(raised).push(done@));
        }
        events.push(done);
        events
    }
}

/// Removing a track leaves none of its occurrences and keeps every other
/// track, in order; a list that does not hold the track is left as it is.
pub proof fn lemma_without(list: Seq<Seq<char>>, track: Seq<char>)
    ensures
        !without(list, track).contains(track),
        without(list, track).len() <= list.len(),
        !list.contains(track) ==> without(list, track) == list,
        forall|other: Seq<char>|
            other != track && list.contains(other) ==> #[trigger] without(list, track).contains(
                other,
            ),
    decreases list.len(),
{
    if list.len() > 0 {
        let front = list.drop_last();
        lemma_without(front, track);
        let shorter = without(front, track);
        assert(list =~= front.push(list.last()));
        if list.last() == track {
            assert forall|other: Seq<char>| other != track && list.contains(other) implies #[trigger]
                without(list, track).contains(other) by {
                let i = choose|i: int| 0 <= i < list.len() && list[i] == other;
                assert(front[i] == other);
                assert(front.contains(other));
                assert(shorter.contains(other));
            }
            assert(list.contains(track)) by {
                assert(list[list.len() - 1] == track);
            }
        } else {
            let result = shorter.push(list.last());
            assert(!result.contains(track)) by {
                if result.contains(track) {
                    let i = choose|i: int| 0 <= i < result.len() && result[i] == track;
                    assert(shorter[i] == track);
                    assert(shorter.contains(track));
                }
            }
            assert forall|other: Seq<char>| other != track && list.contains(other) implies #[trigger]
                result.contains(other) by {
                let i = choose|i: int| 0 <= i < list.len() && list[i] == other;
                if i < front.len() {
                    assert(front[i] == other);
                    assert(front.contains(other));
                    assert(shorter.contains(other));
                    let j = choose|j: int| 0 <= j < shorter.len() && shorter[j] == other;
                    assert(result[j] == other);
                } else {
                    assert(result[shorter.len() as int] == other);
                }
            }
            if !list.contains(track) {
                assert(!front.contains(track)) by {
                    if front.contains(track) {
                        let i = choose|i: int| 0 <= i < front.len() && front[i] == track;
                        assert(list[i] == track);
                    }
                }
                assert(result =~= list);
            }
        }
    }
}

/// What `first_index` finds is the first occurrence, and it finds one
/// whenever there is any at or after `from`.
pub proof fn lemma_first_index(list: Seq<Seq<char>>, track: Seq<char>, from: int)
    requires
        0 <= from,
    ensures
        first_index(list, track, from) matches Some(i) ==> from <= i < list.len() && list[i]
            == track && forall|j: int| from <= j < i ==> list[j] != track,
        first_index(list, track, from).is_none() ==> forall|j: int|
            from <= j < list.len() ==> list[j] != track,
    decreases list.len() - from,
{
    if from < list.len() && list[from] != track {
        lemma_first_index(list, track, from + 1);
    }
}

/// A command is reported under the name by which it was asked for.
pub proof fn lemma_named_keeps_name(name: Seq<char>, track: Option<Seq<char>>, level: Option<u32>)
    ensures
        command_name(named(name, track, level)) == name,
{
}

/// Every command ends with exactly one event that it was run, under its own
/// name, and a command with a missing argument changes no property.
pub proof fn lemma_execute_reports(table: Table, command: CommandModel)
    ensures
        execute(table, command).events.len() >= 1,
        execute(table, command).events.last() == EventModel::CommandExecuted(
            command_name(command),
        ),
        execute(table, command).table.dom() == table.dom(),
        command == CommandModel::Play(None) || command == CommandModel::Volume(None) || command
            == CommandModel::Add(None) || command == CommandModel::Remove(None) || command
            is Other ==> execute(table, command).table == table,
{
    let start = Outcome::start(table);
    assert forall|o: Outcome, name: Seq<char>, value: ValueModel| #[trigger]
        o.set(name, value).table.dom() == o.table.dom() by {
        if o.table.contains_key(name) {
            assert(o.table.insert(name, value).dom() =~= o.table.dom());
        }
    }
}

} // verus!
