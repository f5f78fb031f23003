use eigenplayer::commands::Command;
use eigenplayer::repl::{interpret, is_white_space, split_line, ReplLine, ReplRequest, ReplWord};

fn level_of(input: &str) -> Option<u32> {
    input.split_whitespace().nth(1).and_then(|word| word.parse::<f32>().ok()).map(f32::to_bits)
}

fn line(input: &str) -> ReplLine {
    split_line(input, level_of(input)).unwrap()
}

fn parts(line: &ReplLine) -> (String, Option<String>, Option<String>, Option<u32>) {
    (line.command.clone(), line.argument.clone(), line.first_argument.clone(), line.level)
}

#[test]
fn white_space_is_what_the_standard_library_calls_so() {
    for code in 0..=0x10ffffu32 {
        if let Some(c) = char::from_u32(code) {
            assert_eq!(is_white_space(c), c.is_whitespace(), "U+{:04X}", code);
        }
    }
}

#[test]
fn a_line_without_a_word_gives_nothing() {
    assert!(split_line("", None).is_none());
    assert!(split_line("   ", None).is_none());
    assert!(split_line(" \t\r\n\u{a0}\u{3000} ", Some(1)).is_none());
}

#[test]
fn a_line_is_split_at_its_white_space() {
    let text = |s: &str| Some(s.to_string());
    assert_eq!(parts(&line("quit")), ("quit".to_string(), None, None, None));
    assert_eq!(parts(&line("  quit  ")), ("quit".to_string(), None, None, None));
    assert_eq!(parts(&line("play a.mp3")), ("play".to_string(), text("a.mp3"), text("a.mp3"), None));
    assert_eq!(
        parts(&line("\tplay   my \u{2003} favourite\tsong.mp3 \n")),
        ("play".to_string(), text("my favourite song.mp3"), text("my"), None)
    );
    assert_eq!(
        parts(&line("v 0.5 rest")),
        ("v".to_string(), text("0.5 rest"), text("0.5"), Some(0.5f32.to_bits()))
    );
    assert_eq!(parts(&line("x y")), ("x".to_string(), text("y"), text("y"), None));
    assert_eq!(
        parts(&line("h\u{e9}llo w\u{f6}rld \u{1f3b5}")),
        ("h\u{e9}llo".to_string(), text("w\u{f6}rld \u{1f3b5}"), text("w\u{f6}rld"), None)
    );
}

#[test]
fn splitting_agrees_with_the_standard_library() {
    let lines = [
        "a", " a", "a ", "a b", "a  b", " a b c ", "load  mix   tape", "\u{2028}x\u{2029}y\u{85}z",
        "one\u{a0}two", "add /music/a song.flac", "z\u{200b}z w", "  \u{1680}  p  \u{205f} q \u{202f}",
    ];
    for input in lines {
        let words: Vec<&str> = input.split_whitespace().collect();
        let got = split_line(input, Some(7)).unwrap();
        assert_eq!(got.command, words[0]);
        assert_eq!(got.first_argument.as_deref(), words.get(1).copied());
        let rest = if words.len() > 1 { Some(words[1..].join(" ")) } else { None };
        assert_eq!(got.argument, rest);
        assert_eq!(got.level, Some(7));
    }
}

fn ask(input: &str) -> ReplRequest {
    interpret(line(input))
}

#[test]
fn words_without_arguments() {
    for word in ["quit", "exit", "q"] {
        assert_eq!(ask(word), ReplRequest::Quit);
    }
    assert_eq!(ask("help"), ReplRequest::Help);
    assert_eq!(ask("h"), ReplRequest::Help);
    assert_eq!(ask("status"), ReplRequest::Status);
    assert_eq!(ask("playlist"), ReplRequest::ShowPlaylist);
    assert_eq!(ask("pl"), ReplRequest::ShowPlaylist);
    assert_eq!(ask("playlists"), ReplRequest::ShowPlaylists);
    assert_eq!(ask("history"), ReplRequest::History);
    assert_eq!(ask("pause"), ReplRequest::Run(Command::Pause));
    assert_eq!(ask("stop"), ReplRequest::Run(Command::Stop));
    assert_eq!(ask("next"), ReplRequest::Run(Command::Next));
    assert_eq!(ask("n"), ReplRequest::Run(Command::Next));
    assert_eq!(ask("prev"), ReplRequest::Run(Command::Prev));
    assert_eq!(ask("p"), ReplRequest::Run(Command::Prev));
}

#[test]
fn play_with_and_without_a_track() {
    assert_eq!(ask("play"), ReplRequest::Resume);
    assert_eq!(
        ask("play my  favourite song.mp3"),
        ReplRequest::Run(Command::Play(Some("my favourite song.mp3".to_string())))
    );
}

#[test]
fn add_and_remove_need_a_track() {
    assert_eq!(ask("add"), ReplRequest::Usage(ReplWord::Add));
    assert_eq!(ask("a"), ReplRequest::Usage(ReplWord::Add));
    assert_eq!(ask("remove"), ReplRequest::Usage(ReplWord::Remove));
    assert_eq!(ask("rm"), ReplRequest::Usage(ReplWord::Remove));
    assert_eq!(ask("add a b"), ReplRequest::Run(Command::Add(Some("a b".to_string()))));
    assert_eq!(ask("rm a b"), ReplRequest::Run(Command::Remove(Some("a b".to_string()))));
}

#[test]
fn volume_shows_or_sets() {
    for word in ["volume", "vol", "v"] {
        assert_eq!(ask(word), ReplRequest::ShowVolume);
    }
    assert_eq!(ask("volume 0.25"), ReplRequest::Run(Command::Volume(Some(0.25f32.to_bits()))));
    assert_eq!(ask("v 3 extra"), ReplRequest::Run(Command::Volume(Some(3.0f32.to_bits()))));
    assert_eq!(ask("vol loud"), ReplRequest::Run(Command::Volume(None)));
}

#[test]
fn load_and_save_take_the_first_argument() {
    assert_eq!(ask("load"), ReplRequest::Usage(ReplWord::Load));
    assert_eq!(ask("save"), ReplRequest::Usage(ReplWord::Save));
    assert_eq!(ask("load mix tape"), ReplRequest::Load("mix".to_string()));
    assert_eq!(ask("save mix tape"), ReplRequest::Save("mix".to_string()));
}

#[test]
fn anything_else_is_unknown() {
    assert_eq!(ask("dance"), ReplRequest::Unknown("dance".to_string()));
    assert_eq!(ask("Quit"), ReplRequest::Unknown("Quit".to_string()));
    assert_eq!(ask("plays x"), ReplRequest::Unknown("plays".to_string()));
}
