//! Named properties of the player and the events that their changes raise.
//!
//! [`Core`] is a table from names to values, kept in a hash map. Giving a
//! value to a property that exists raises an event, which the caller hands to
//! whoever subscribed; the table itself holds no callbacks.

use vstd::prelude::*;
use vstd::hash_map::StringHashMap;

verus! {

/// The value of a property.
#[derive(Debug, Clone, PartialEq)]
pub enum PropertyValue {
    String(String),
    Bool(bool),
    /// A number, as a sample word.
    Float(u32),
    Int(i32),
    StringList(Vec<String>),
    /// Equalizer bands, each as four sample words: frequency, quality factor,
    /// gain and shape code.
    EqBandList(Vec<[u32; 4]>),
}

/// [`PropertyValue`] with its texts as sequences of characters.
pub enum ValueModel {
    String(Seq<char>),
    Bool(bool),
    Float(u32),
    Int(i32),
    StringList(Seq<Seq<char>>),
    EqBandList(Seq<[u32; 4]>),
}

/// The texts of a list of strings.
pub open spec fn texts(list: Seq<String>) -> Seq<Seq<char>> {
    list.map_values(|s: String| s@)
}

impl View for PropertyValue {
    type V = ValueModel;

    open spec fn view(&self) -> ValueModel {
        match *self {
            PropertyValue::String(s) => ValueModel::String(s@),
            PropertyValue::Bool(b) => ValueModel::Bool(b),
            PropertyValue::Float(f) => ValueModel::Float(f),
            PropertyValue::Int(n) => ValueModel::Int(n),
            PropertyValue::StringList(list) => ValueModel::StringList(texts(list@)),
            PropertyValue::EqBandList(bands) => ValueModel::EqBandList(bands@),
        }
    }
}

impl PropertyValue {
    pub fn as_string(&self) -> (r: Option<&String>)
        ensures
            self matches PropertyValue::String(s) ==> r == Some(s),
            !(self is String) ==> r.is_none(),
    {
        match self {
            PropertyValue::String(s) => Some(s),
            _ => None,
        }
    }

    pub fn as_bool(&self) -> (r: Option<bool>)
        ensures
            self matches PropertyValue::Bool(b) ==> r == Some(*b),
            !(self is Bool) ==> r.is_none(),
    {
        match self {
            PropertyValue::Bool(b) => Some(*b),
            _ => None,
        }
    }

    pub fn as_float(&self) -> (r: Option<u32>)
        ensures
            self matches PropertyValue::Float(f) ==> r == Some(*f),
            !(self is Float) ==> r.is_none(),
    {
        match self {
            PropertyValue::Float(f) => Some(*f),
            _ => None,
        }
    }

    pub fn as_string_list(&self) -> (r: Option<&Vec<String>>)
        ensures
            self matches PropertyValue::StringList(list) ==> r == Some(list),
            !(self is StringList) ==> r.is_none(),
    {
        match self {
            PropertyValue::StringList(list) => Some(list),
            _ => None,
        }
    }
}

/// One property: its current value.
pub struct Property {
    pub value: PropertyValue,
}

impl Property {
    pub fn new(initial: PropertyValue) -> (property: Property)
        ensures
            property.value == initial,
    {
        Property { value: initial }
    }

    pub fn set(&mut self, new_value: PropertyValue)
        ensures
            final(self).value == new_value,
    {
        self.value = new_value;
    }

    pub fn get(&self) -> (value: &PropertyValue)
        ensures
            value == self.value,
    {
        &self.value
    }
}

/// What the player reports to its observers.
#[derive(Debug, Clone, PartialEq)]
pub enum EventType {
    /// The property of this name was given a value.
    PropertyChanged(String),
    /// The command of this name was run.
    CommandExecuted(String),
}

/// [`EventType`] with its name as a sequence of characters.
pub enum EventModel {
    PropertyChanged(Seq<char>),
    CommandExecuted(Seq<char>),
}

impl View for EventType {
    type V = EventModel;

    open spec fn view(&self) -> EventModel {
        match *self {
            EventType::PropertyChanged(name) => EventModel::PropertyChanged(name@),
            EventType::CommandExecuted(name) => EventModel::CommandExecuted(name@),
        }
    }
}

/// The events of a list, each as its model.
pub open spec fn event_models(events: Seq<EventType>) -> Seq<EventModel> {
    events.map_values(|e: EventType| e@)
}

/// The table of properties as its contracts see it: a map from names to
/// values.
pub type Table = Map<Seq<char>, ValueModel>;

/// Giving a value to a property: only a property that exists takes it.
pub open spec fn table_set(table: Table, name: Seq<char>, value: ValueModel) -> Table {
    if table.contains_key(name) {
        table.insert(name, value)
    } else {
        table
    }
}

/// The events that giving a value to a property raises: one change event if
/// the property exists, none otherwise.
pub open spec fn table_set_events(table: Table, name: Seq<char>) -> Seq<EventModel> {
    if table.contains_key(name) {
        seq![EventModel::PropertyChanged(name)]
    } else {
        Seq::empty()
    }
}

/// The player's properties by name.
pub struct Core {
    properties: StringHashMap<Property>,
}

impl View for Core {
    type V = Table;

    closed spec fn view(&self) -> Table {
        Map::new(
            |name: Seq<char>| self.properties@.contains_key(name),
            |name: Seq<char>| self.properties@[name].value@,
        )
    }
}

impl Core {
    /// A table without properties.
    pub fn new() -> (core: Core)
        ensures
            core@ == Map::<Seq<char>, ValueModel>::empty(),
    {
        let core = Core { properties: StringHashMap::new() };
        assert(core@ =~= Map::<Seq<char>, ValueModel>::empty());
        core
    }

    /// Adds a property, or replaces the one of that name.
    pub fn add_property(&mut self, name: &str, value: PropertyValue)
        ensures
            final(self)@ == old(self)@.insert(name@, value@),
    {
        self.properties.insert(name.to_owned(), Property::new(value));
        assert(self@ =~= old(self)@.insert(name@, value@));
    }

    /// Gives a value to a property that exists and returns the event that
    /// this raises. A name that the table does not hold changes nothing and
    /// raises no event.
    pub fn set_property(&mut self, name: &str, value: PropertyValue) -> (event: Option<EventType>)
        ensures
            final(self)@ == table_set(old(self)@, name@, value@),
            old(self)@.contains_key(name@) ==> event is Some && event->Some_0@
                == EventModel::PropertyChanged(name@),
            !old(self)@.contains_key(name@) ==> event.is_none(),
    {
        if self.properties.contains_key(name) {
            self.properties.insert(name.to_owned(), Property::new(value));
            assert(self@ =~= old(self)@.insert(name@, value@));
            Some(EventType::PropertyChanged(name.to_owned()))
        } else {
            None
        }
    }

    /// The value of a property, if the table holds the name.
    pub fn get_property(&self, name: &str) -> (r: Option<&PropertyValue>)
        ensures
            self@.contains_key(name@) ==> r is Some && r->Some_0@ == self@[name@],
            !self@.contains_key(name@) ==> r.is_none(),
    {
        match self.properties.get(name) {
            Some(property) => Some(property.get()),
            None => None,
        }
    }

    /// The text of a property that holds a string.
    pub fn get_string(&self, name: &str) -> (r: Option<&String>)
        ensures
            self@.contains_key(name@) && self@[name@] is String ==> r is Some && r->Some_0@
                == self@[name@]->String_0,
            !(self@.contains_key(name@) && self@[name@] is String) ==> r.is_none(),
    {
        match self.get_property(name) {
            Some(value) => value.as_string(),
            None => None,
        }
    }

    /// The flag of a property that holds one.
    pub fn get_bool(&self, name: &str) -> (r: Option<bool>)
        ensures
            self@.contains_key(name@) && self@[name@] is Bool ==> r == Some(
                self@[name@]->Bool_0,
            ),
            !(self@.contains_key(name@) && self@[name@] is Bool) ==> r.is_none(),
    {
        match self.get_property(name) {
            Some(value) => value.as_bool(),
            None => None,
        }
    }

    /// The number of a property that holds one.
    pub fn get_float(&self, name: &str) -> (r: Option<u32>)
        ensures
            self@.contains_key(name@) && self@[name@] is Float ==> r == Some(
                self@[name@]->Float_0,
            ),
            !(self@.contains_key(name@) && self@[name@] is Float) ==> r.is_none(),
    {
        match self.get_property(name) {
            Some(value) => value.as_float(),
            None => None,
        }
    }

    /// The list of a property that holds one.
    pub fn get_string_list(&self, name: &str) -> (r: Option<&Vec<String>>)
        ensures
            self@.contains_key(name@) && self@[name@] is StringList ==> r is Some && texts(
                r->Some_0@,
            ) == self@[name@]->StringList_0,
            !(self@.contains_key(name@) && self@[name@] is StringList) ==> r.is_none(),
    {
        match self.get_property(name) {
            Some(value) => value.as_string_list(),
            None => None,
        }
    }
}

/// The table after `register_property`: the playback properties at their
/// starting values and the configuration properties at their defaults.
pub open spec fn registered(table: Table, default_volume: u32, enable_eq: bool) -> Table {
    table.insert("playing"@, ValueModel::Bool(false)).insert(
        "current_track"@,
        ValueModel::String("none"@),
    ).insert("volume"@, ValueModel::Float(default_volume)).insert(
        "playlist"@,
        ValueModel::StringList(Seq::empty()),
    ).insert("enable_eq"@, ValueModel::Bool(enable_eq)).insert(
        "ring_buffer_size"@,
        ValueModel::Int(88200),
    ).insert("default_volume"@, ValueModel::Float(0x3f00_0000)).insert(
        "eq_bands"@,
        ValueModel::EqBandList(Seq::empty()),
    )
}

/// Adds the player's properties to a table: the playback state, and the
/// configuration with its defaults of 88200 samples of ring buffer, a volume
/// of one half and no equalizer bands.
pub fn register_property(core: &mut Core, default_volume: u32, enable_eq: bool)
    ensures
        final(core)@ == registered(old(core)@, default_volume, enable_eq),
{
    core.add_property("playing", PropertyValue::Bool(false));
    core.add_property("current_track", PropertyValue::String("none".to_owned()));
    core.add_property("volume", PropertyValue::Float(default_volume));
    let playlist: Vec<String> = Vec::new();
    assert(texts(playlist@) =~= Seq::<Seq<char>>::empty());
    core.add_property("playlist", PropertyValue::StringList(playlist));
    core.add_property("enable_eq", PropertyValue::Bool(enable_eq));
    core.add_property("ring_buffer_size", PropertyValue::Int(88200));
    core.add_property("default_volume", PropertyValue::Float(0x3f00_0000));
    core.add_property("eq_bands", PropertyValue::EqBandList(Vec::new()));
}

/// A property that was set can be read back, and no other property is
/// touched: only the name that was set may differ between the tables.
pub proof fn lemma_set_then_get(table: Table, name: Seq<char>, value: ValueModel, other: Seq<char>)
    ensures
        table.contains_key(name) ==> table_set(table, name, value)[name] == value,
        table_set(table, name, value).dom() == table.dom(),
        other != name && table.contains_key(other) ==> table_set(table, name, value)[other]
            == table[other],
        table.insert(name, value)[name] == value,
{
    if table.contains_key(name) {
        assert(table.insert(name, value).dom() =~= table.dom());
    }
}

} // verus!
