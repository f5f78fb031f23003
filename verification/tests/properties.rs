use eigenplayer::properties::{register_property, Core, EventType, Property, PropertyValue};
use std::sync::{Arc, Mutex};

#[test]
fn test_property_value_types() {
    let str_val = PropertyValue::String("test".to_string());
    assert_eq!(str_val.as_string(), Some(&"test".to_string()));
    assert_eq!(str_val.as_bool(), None);

    let bool_val = PropertyValue::Bool(true);
    assert_eq!(bool_val.as_bool(), Some(true));
    assert_eq!(bool_val.as_string(), None);

    let float_val = PropertyValue::Float(0.5f32.to_bits());
    assert_eq!(float_val.as_float().map(f32::from_bits), Some(0.5));

    let list_val = PropertyValue::StringList(vec!["a".to_string(), "b".to_string()]);
    assert_eq!(
        list_val.as_string_list(),
        Some(&vec!["a".to_string(), "b".to_string()])
    );
}

#[test]
fn test_core_properties() {
    let mut core = Core::new();

    core.add_property("playing", PropertyValue::Bool(false));
    core.add_property("volume", PropertyValue::Float(0.5f32.to_bits()));
    core.add_property("playlist", PropertyValue::StringList(vec![]));

    assert_eq!(core.get_bool("playing"), Some(false));
    assert_eq!(core.get_float("volume").map(f32::from_bits), Some(0.5));
    assert_eq!(core.get_string_list("playlist"), Some(&vec![]));

    core.set_property("playing", PropertyValue::Bool(true));
    assert_eq!(core.get_bool("playing"), Some(true));
}

#[test]
fn test_property_callbacks() {
    let mut core = Core::new();
    core.add_property("test", PropertyValue::String("initial".to_string()));

    let callback_triggered = Arc::new(Mutex::new(false));
    let callback_triggered_clone = Arc::clone(&callback_triggered);
    let callback = move |_val: &PropertyValue, _core: &Core| {
        *callback_triggered_clone.lock().unwrap() = true;
    };

    let event = core.set_property("test", PropertyValue::String("changed".to_string()));
    assert_eq!(event, Some(EventType::PropertyChanged("test".to_string())));
    if let Some(EventType::PropertyChanged(name)) = event {
        if let Some(value) = core.get_property(&name) {
            callback(value, &core);
        }
    }
    assert!(*callback_triggered.lock().unwrap());
    assert_eq!(core.get_string("test"), Some(&"changed".to_string()));
}

#[test]
fn accessors_of_the_other_kinds_give_none() {
    let int_val = PropertyValue::Int(7);
    assert_eq!(int_val.as_float(), None);
    assert_eq!(int_val.as_bool(), None);
    assert_eq!(int_val.as_string(), None);
    assert_eq!(int_val.as_string_list(), None);
    let bands = PropertyValue::EqBandList(vec![[1, 2, 3, 4]]);
    assert_eq!(bands.as_string_list(), None);
    assert_eq!(PropertyValue::Float(1).as_string_list(), None);
    assert_eq!(PropertyValue::Bool(true).as_float(), None);
}

#[test]
fn property_set_and_get() {
    let mut property = Property::new(PropertyValue::Bool(false));
    assert_eq!(property.get(), &PropertyValue::Bool(false));
    property.set(PropertyValue::Int(3));
    assert_eq!(property.get(), &PropertyValue::Int(3));
    assert_eq!(property.value, PropertyValue::Int(3));
}

#[test]
fn set_property_on_a_missing_name_changes_nothing() {
    let mut core = Core::new();
    core.add_property("a", PropertyValue::Int(1));
    assert_eq!(core.set_property("b", PropertyValue::Int(2)), None);
    assert_eq!(core.get_property("b"), None);
    assert_eq!(core.get_property("a"), Some(&PropertyValue::Int(1)));
}

#[test]
fn add_property_replaces_the_value_of_a_name() {
    let mut core = Core::new();
    core.add_property("a", PropertyValue::Int(1));
    core.add_property("b", PropertyValue::Bool(true));
    core.add_property("a", PropertyValue::String("x".to_string()));
    assert_eq!(core.get_string("a"), Some(&"x".to_string()));
    assert_eq!(core.get_bool("b"), Some(true));
    assert_eq!(core.get_bool("a"), None);
    assert_eq!(core.get_float("b"), None);
    assert_eq!(core.get_string("missing"), None);
    assert_eq!(core.get_string_list("a"), None);
}

#[test]
fn set_property_touches_no_other_property() {
    let mut core = Core::new();
    core.add_property("one", PropertyValue::Int(1));
    core.add_property("two", PropertyValue::Int(2));
    core.add_property("three", PropertyValue::Int(3));
    assert_eq!(
        core.set_property("two", PropertyValue::Int(20)),
        Some(EventType::PropertyChanged("two".to_string()))
    );
    assert_eq!(core.get_property("one"), Some(&PropertyValue::Int(1)));
    assert_eq!(core.get_property("two"), Some(&PropertyValue::Int(20)));
    assert_eq!(core.get_property("three"), Some(&PropertyValue::Int(3)));
}

#[test]
fn register_property_adds_the_defaults() {
    let mut core = Core::new();
    register_property(&mut core, 0.25f32.to_bits(), true);
    assert_eq!(core.get_bool("playing"), Some(false));
    assert_eq!(core.get_string("current_track"), Some(&"none".to_string()));
    assert_eq!(core.get_float("volume").map(f32::from_bits), Some(0.25));
    assert_eq!(core.get_string_list("playlist"), Some(&Vec::new()));
    assert_eq!(core.get_bool("enable_eq"), Some(true));
    assert_eq!(core.get_property("ring_buffer_size"), Some(&PropertyValue::Int(88200)));
    assert_eq!(core.get_float("default_volume").map(f32::from_bits), Some(0.5));
    assert_eq!(core.get_property("eq_bands"), Some(&PropertyValue::EqBandList(Vec::new())));
}
