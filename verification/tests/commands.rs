use eigenplayer::commands::{position, with_track, without_track, Command};
use eigenplayer::properties::{register_property, Core, EventType, PropertyValue};

fn text(s: &str) -> String {
    s.to_string()
}

fn changed(name: &str) -> EventType {
    EventType::PropertyChanged(text(name))
}

fn executed(name: &str) -> EventType {
    EventType::CommandExecuted(text(name))
}

fn player(playlist: &[&str], current: &str) -> Core {
    let mut core = Core::new();
    register_property(&mut core, 0.5f32.to_bits(), false);
    core.set_property("playlist", PropertyValue::StringList(playlist.iter().map(|t| text(t)).collect()));
    core.set_property("current_track", PropertyValue::String(text(current)));
    core
}

#[test]
fn play_sets_the_track_and_starts_playback() {
    let mut core = player(&[], "none");
    let events = core.execute_command(Command::Play(Some(text("a.mp3"))));
    assert_eq!(events, vec![changed("current_track"), changed("playing"), executed("play")]);
    assert_eq!(core.get_string("current_track"), Some(&text("a.mp3")));
    assert_eq!(core.get_bool("playing"), Some(true));
}

#[test]
fn play_without_a_track_only_reports() {
    let mut core = player(&[], "none");
    let events = core.execute_command(Command::Play(None));
    assert_eq!(events, vec![executed("play")]);
    assert_eq!(core.get_bool("playing"), Some(false));
}

#[test]
fn pause_and_stop() {
    let mut core = player(&["a"], "a");
    core.execute_command(Command::Play(Some(text("a"))));
    let events = core.execute_command(Command::Pause);
    assert_eq!(events, vec![changed("playing"), executed("pause")]);
    assert_eq!(core.get_bool("playing"), Some(false));
    assert_eq!(core.get_string("current_track"), Some(&text("a")));
    let events = core.execute_command(Command::Stop);
    assert_eq!(events, vec![changed("playing"), changed("current_track"), executed("stop")]);
    assert_eq!(core.get_string("current_track"), Some(&text("none")));
}

#[test]
fn volume_is_limited_to_the_range() {
    let mut core = player(&[], "none");
    for (set, read) in [(0.3f32, 0.3f32), (1.5, 1.0), (-2.0, 0.0), (1.0, 1.0)] {
        let events = core.execute_command(Command::Volume(Some(set.to_bits())));
        assert_eq!(events, vec![changed("volume"), executed("volume")]);
        assert_eq!(core.get_float("volume").map(f32::from_bits), Some(read));
    }
    let events = core.execute_command(Command::Volume(None));
    assert_eq!(events, vec![executed("volume")]);
    assert_eq!(core.get_float("volume").map(f32::from_bits), Some(1.0));
    let events = core.execute_command(Command::Volume(Some(f32::NAN.to_bits())));
    assert_eq!(events, vec![changed("volume"), executed("volume")]);
    assert_eq!(core.get_float("volume").map(f32::from_bits), Some(0.0));
}

#[test]
fn add_appends_and_remove_takes_every_occurrence() {
    let mut core = player(&["a", "b"], "none");
    let events = core.execute_command(Command::Add(Some(text("a"))));
    assert_eq!(events, vec![changed("playlist"), executed("add")]);
    assert_eq!(core.get_string_list("playlist"), Some(&vec![text("a"), text("b"), text("a")]));
    let events = core.execute_command(Command::Remove(Some(text("a"))));
    assert_eq!(events, vec![changed("playlist"), executed("remove")]);
    assert_eq!(core.get_string_list("playlist"), Some(&vec![text("b")]));
    let events = core.execute_command(Command::Remove(Some(text("zzz"))));
    assert_eq!(events, vec![changed("playlist"), executed("remove")]);
    assert_eq!(core.get_string_list("playlist"), Some(&vec![text("b")]));
    assert_eq!(core.execute_command(Command::Add(None)), vec![executed("add")]);
    assert_eq!(core.execute_command(Command::Remove(None)), vec![executed("remove")]);
}

#[test]
fn next_and_prev_walk_the_playlist() {
    let mut core = player(&["a", "b", "c"], "a");
    let events = core.execute_command(Command::Next);
    assert_eq!(events, vec![changed("current_track"), changed("playing"), executed("next")]);
    assert_eq!(core.get_string("current_track"), Some(&text("b")));
    assert_eq!(core.get_bool("playing"), Some(true));
    core.execute_command(Command::Next);
    assert_eq!(core.get_string("current_track"), Some(&text("c")));
    let events = core.execute_command(Command::Next);
    assert_eq!(events, vec![executed("next")]);
    assert_eq!(core.get_string("current_track"), Some(&text("c")));
    core.execute_command(Command::Prev);
    assert_eq!(core.get_string("current_track"), Some(&text("b")));
    core.execute_command(Command::Prev);
    assert_eq!(core.get_string("current_track"), Some(&text("a")));
    let events = core.execute_command(Command::Prev);
    assert_eq!(events, vec![executed("prev")]);
    assert_eq!(core.get_string("current_track"), Some(&text("a")));
}

#[test]
fn next_goes_by_the_first_occurrence_of_the_current_track() {
    let mut core = player(&["a", "b", "a", "c"], "a");
    core.execute_command(Command::Next);
    assert_eq!(core.get_string("current_track"), Some(&text("b")));
    core.execute_command(Command::Next);
    assert_eq!(core.get_string("current_track"), Some(&text("a")));
    core.execute_command(Command::Next);
    assert_eq!(core.get_string("current_track"), Some(&text("b")));
}

#[test]
fn next_without_the_current_track_in_the_playlist_changes_nothing() {
    let mut core = player(&["a", "b"], "x");
    assert_eq!(core.execute_command(Command::Next), vec![executed("next")]);
    assert_eq!(core.execute_command(Command::Prev), vec![executed("prev")]);
    assert_eq!(core.get_string("current_track"), Some(&text("x")));
    assert_eq!(core.get_bool("playing"), Some(false));
}

#[test]
fn unknown_command_only_reports() {
    let mut core = player(&["a"], "a");
    let events = core.execute_command(Command::Other(text("frobnicate")));
    assert_eq!(events, vec![executed("frobnicate")]);
    assert_eq!(core.get_string("current_track"), Some(&text("a")));
}

#[test]
fn commands_on_an_empty_table_raise_no_change_events() {
    let mut core = Core::new();
    assert_eq!(core.execute_command(Command::Play(Some(text("a")))), vec![executed("play")]);
    assert_eq!(core.execute_command(Command::Pause), vec![executed("pause")]);
    assert_eq!(core.execute_command(Command::Add(Some(text("a")))), vec![executed("add")]);
    assert_eq!(core.get_property("playing"), None);
    assert_eq!(core.get_property("playlist"), None);
}

#[test]
fn playlist_helpers() {
    let list = vec![text("a"), text("b"), text("a"), text("c")];
    assert_eq!(position(&list, &text("a")), Some(0));
    assert_eq!(position(&list, &text("c")), Some(3));
    assert_eq!(position(&list, &text("z")), None);
    assert_eq!(position(&Vec::new(), &text("a")), None);
    assert_eq!(with_track(&list, text("d")), vec![text("a"), text("b"), text("a"), text("c"), text("d")]);
    assert_eq!(without_track(&list, &text("a")), vec![text("b"), text("c")]);
    assert_eq!(without_track(&list, &text("z")), list);
    assert_eq!(without_track(&vec![text("a")], &text("a")), Vec::<String>::new());
}
