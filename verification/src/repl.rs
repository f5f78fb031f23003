//! The words of the interactive prompt and what each asks for.
//!
//! Reading a line and printing are the caller's work, and so is reading a
//! number out of a word. The line is split into its words here, and what the
//! first word asks for, given what follows it, is decided here.

use vstd::prelude::*;
use vstd::string::{StrSliceExecFns, StringExecFns};
use crate::commands::{text_of, Command, CommandModel};

verus! {

/// One line of input after it was split into words.
pub struct ReplLine {
    /// The first word.
    pub command: String,
    /// The words after the first, joined by single spaces; `None` if there are
    /// none.
    pub argument: Option<String>,
    /// The second word alone; `None` if there is none.
    pub first_argument: Option<String>,
    /// The second word as a number, as a sample word; `None` if there is no
    /// second word or it is no number.
    pub level: Option<u32>,
}

/// Whether a character is white space: one of the characters that Unicode
/// gives the property `White_Space`.
pub open spec fn is_white(c: char) -> bool {
    let code = c as u32;
    ||| 0x09 <= code <= 0x0d
    ||| code == 0x20
    ||| code == 0x85
    ||| code == 0xa0
    ||| code == 0x1680
    ||| 0x2000 <= code <= 0x200a
    ||| code == 0x2028
    ||| code == 0x2029
    ||| code == 0x202f
    ||| code == 0x205f
    ||| code == 0x3000
}

pub fn is_white_space(c: char) -> (white: bool)
    ensures
        white == is_white(c),
{
    let code = c as u32;
    (0x09 <= code && code <= 0x0d) || code == 0x20 || code == 0x85 || code == 0xa0 || code
        == 0x1680 || (0x2000 <= code && code <= 0x200a) || code == 0x2028 || code == 0x2029
        || code == 0x202f || code == 0x205f || code == 0x3000
}

/// The words of a text: its longest runs of characters that are not white
/// space, in order.
pub open spec fn words(text: Seq<char>) -> Seq<Seq<char>>
    decreases text.len(),
{
    if text.len() == 0 {
        Seq::empty()
    } else {
        let before = text.drop_last();
        if is_white(text.last()) {
            words(before)
        } else if before.len() > 0 && !is_white(before.last()) {
            words(before).drop_last().push(words(before).last().push(text.last()))
        } else {
            words(before).push(seq![text.last()])
        }
    }
}

/// The words of a list with one space between each two.
pub open spec fn joined(list: Seq<Seq<char>>) -> Seq<char>
    decreases list.len(),
{
    if list.len() == 0 {
        Seq::empty()
    } else if list.len() == 1 {
        list[0]
    } else {
        joined(list.drop_last()) + seq![' '] + list.last()
    }
}

/// Whether a line holds what its words say: the first word is the command,
/// the second is the first argument, and all after the first, joined by
/// single spaces, are the argument.
pub open spec fn line_of(line: ReplLine, list: Seq<Seq<char>>, level: Option<u32>) -> bool {
    &&& list.len() > 0
    &&& line.command@ == list[0]
    &&& text_of(line.first_argument) == (if list.len() > 1 {
        Some(list[1])
    } else {
        None
    })
    &&& text_of(line.argument) == (if list.len() > 1 {
        Some(joined(list.skip(1)))
    } else {
        None
    })
    &&& line.level == level
}

/// Whether the first `upto` characters of a text have been split: `ranges`
/// holds the places of the words that have ended, and a word that has not
/// ended yet began at `start`.
spec fn scanned(
    text: Seq<char>,
    upto: int,
    ranges: Seq<(usize, usize)>,
    inside: bool,
    start: int,
) -> bool {
    let list = words(text.take(upto));
    &&& inside == (upto > 0 && !is_white(text[upto - 1]))
    &&& list.len() == ranges.len() + (if inside {
        1int
    } else {
        0int
    })
    &&& forall|k: int|
        0 <= k < ranges.len() ==> (#[trigger] ranges[k]).0 <= ranges[k].1 <= upto && list[k]
            == text.subrange(ranges[k].0 as int, ranges[k].1 as int)
    &&& inside ==> 0 <= start < upto && list.last() == text.subrange(start, upto)
}

proof fn lemma_scan_step(
    text: Seq<char>,
    upto: int,
    ranges: Seq<(usize, usize)>,
    inside: bool,
    start: int,
)
    requires
        0 <= upto < text.len(),
        upto < usize::MAX,
        scanned(text, upto, ranges, inside, start),
    ensures
        is_white(text[upto]) && inside ==> scanned(
            text,
            upto + 1,
            ranges.push((start as usize, upto as usize)),
            false,
            start,
        ),
        is_white(text[upto]) && !inside ==> scanned(text, upto + 1, ranges, false, start),
        !is_white(text[upto]) && inside ==> scanned(text, upto + 1, ranges, true, start),
        !is_white(text[upto]) && !inside ==> scanned(text, upto + 1, ranges, true, upto),
{
    let before = text.take(upto);
    let now = text.take(upto + 1);
    assert(now.drop_last() =~= before);
    assert(now.last() == text[upto]);
    if upto > 0 {
        assert(before.last() == text[upto - 1]);
    }
    let list = words(before);
    if is_white(text[upto]) {
        if inside {
            let more = ranges.push((start as usize, upto as usize));
            assert forall|k: int| 0 <= k < more.len() implies (#[trigger] more[k]).0 <= more[k].1
                <= upto + 1 && words(now)[k] == text.subrange(
                more[k].0 as int,
                more[k].1 as int,
            ) by {
                if k < ranges.len() {
                    assert(more[k] == ranges[k]);
                }
            }
        }
    } else {
        if inside {
            assert(text.subrange(start, upto).push(text[upto]) =~= text.subrange(
                start,
                upto + 1,
            ));
        } else {
            assert(seq![text[upto]] =~= text.subrange(upto, upto + 1));
        }
    }
}

/// Every word has at least one character and no white space in it.
pub proof fn lemma_words_are_runs(text: Seq<char>)
    ensures
        forall|k: int, j: int|
            0 <= k < words(text).len() && 0 <= j < words(text)[k].len() ==> !is_white(
                #[trigger] words(text)[k][j],
            ),
        forall|k: int| 0 <= k < words(text).len() ==> (#[trigger] words(text)[k]).len() > 0,
        text.len() > 0 && !is_white(text.last()) ==> words(text).len() > 0,
    decreases text.len(),
{
    if text.len() > 0 {
        let before = text.drop_last();
        let c = text.last();
        lemma_words_are_runs(before);
        let old = words(before);
        let new = words(text);
        if !is_white(c) {
            if before.len() > 0 && !is_white(before.last()) {
                let grown = old.last().push(c);
                assert(new == old.drop_last().push(grown));
                assert forall|k: int, j: int|
                    0 <= k < new.len() && 0 <= j < new[k].len() implies !is_white(
                    #[trigger] new[k][j],
                ) by {
                    if k < new.len() - 1 {
                        assert(new[k] == old[k]);
                    } else if j < old.last().len() {
                        assert(new[k][j] == old.last()[j]);
                        assert(old.last() == old[old.len() - 1]);
                    }
                }
                assert forall|k: int| 0 <= k < new.len() implies (#[trigger] new[k]).len()
                    > 0 by {
                    if k < new.len() - 1 {
                        assert(new[k] == old[k]);
                    }
                }
            } else {
                assert(new == old.push(seq![c]));
                assert forall|k: int, j: int|
                    0 <= k < new.len() && 0 <= j < new[k].len() implies !is_white(
                    #[trigger] new[k][j],
                ) by {
                    if k < old.len() {
                        assert(new[k] == old[k]);
                    }
                }
                assert forall|k: int| 0 <= k < new.len() implies (#[trigger] new[k]).len()
                    > 0 by {
                    if k < old.len() {
                        assert(new[k] == old[k]);
                    }
                }
            }
        }
    }
}

/// Splits a line into its words. A line without a word gives `None`. `level`
/// is the second word read as a number by the caller, and is handed on.
pub fn split_line(input: &str, level: Option<u32>) -> (line: Option<ReplLine>)
    ensures
        words(input@).len() == 0 ==> line.is_none(),
        words(input@).len() > 0 ==> line is Some && line_of(
            line->Some_0,
            words(input@),
            level,
        ),
{
    let count = input.unicode_len();
    let mut ranges: Vec<(usize, usize)> = Vec::new();
    let mut inside = false;
    let mut start: usize = 0;
    let mut at: usize = 0;
    while at < count
        invariant
            at <= count,
            count == input@.len(),
            scanned(input@, at as int, ranges@, inside, start as int),
        decreases count - at,
    {
        proof {
            lemma_scan_step(input@, at as int, ranges@, inside, start as int);
        }
        let white = is_white_space(input.get_char(at));
        if white {
            if inside {
                ranges.push((start, at));
                inside = false;
            }
        } else {
            if !inside {
                start = at;
                inside = true;
            }
        }
        at = at + 1;
    }
    if inside {
        let ghost before = ranges@;
        ranges.push((start, at));
        assert forall|k: int| 0 <= k < ranges@.len() implies (#[trigger] ranges@[k]).0
            <= ranges@[k].1 <= count && words(input@.take(count as int))[k] == input@.subrange(
            ranges@[k].0 as int,
            ranges@[k].1 as int,
        ) by {
            if k < before.len() {
                assert(ranges@[k] == before[k]);
            }
        }
    }
    let ghost list = words(input@);
    assert(input@.take(count as int) =~= input@);
    assert(list.len() == ranges@.len());
    if ranges.len() == 0 {
        return None;
    }
    let first = ranges[0];
    let command = input.substring_char(first.0, first.1).to_owned();
    if ranges.len() == 1 {
        return Some(ReplLine { command, argument: None, first_argument: None, level });
    }
    let second = ranges[1];
    let first_argument = input.substring_char(second.0, second.1).to_owned();
    let mut argument = String::new();
    let mut next: usize = 1;
    while next < ranges.len()
        invariant
            1 <= next <= ranges@.len(),
            list == words(input@),
            list.len() == ranges@.len(),
            forall|k: int|
                0 <= k < ranges@.len() ==> (#[trigger] ranges@[k]).0 <= ranges@[k].1
                    <= input@.len() && list[k] == input@.subrange(
                    ranges@[k].0 as int,
                    ranges@[k].1 as int,
                ),
            argument@ == joined(list.subrange(1, next as int)),
        decreases ranges@.len() - next,
    {
        proof {
            let longer = list.subrange(1, next + 1);
            assert(longer.drop_last() =~= list.subrange(1, next as int));
            assert(longer.last() == list[next as int]);
            reveal_strlit(" ");
            assert(" "@ =~= seq![' ']);
        }
        if next > 1 {
            argument.append(" ");
        }
        let place = ranges[next];
        argument.append(input.substring_char(place.0, place.1));
        proof {
            if next == 1 {
                assert(Seq::<char>::empty() + list[1] =~= list[1]);
            }
        }
        next = next + 1;
    }
    assert(list.subrange(1, list.len() as int) =~= list.skip(1));
    Some(ReplLine { command, argument: Some(argument), first_argument: Some(first_argument), level })
}

/// What a line asks the prompt to do.
#[derive(Debug, Clone, PartialEq)]
pub enum ReplRequest {
    Quit,
    Help,
    Status,
    ShowPlaylist,
    ShowPlaylists,
    History,
    /// `play` without a track: turn playback on.
    Resume,
    /// `volume` without a level: print the volume.
    ShowVolume,
    /// Run a command of the player.
    Run(Command),
    /// Load the saved playlist of this name.
    Load(String),
    /// Save the playlist under this name.
    Save(String),
    /// The word needs an argument and has none: print how to use it.
    Usage(ReplWord),
    /// The word is no command of the prompt.
    Unknown(String),
}

/// The words that need an argument.
#[derive(Debug, Clone, Copy, PartialEq, Eq, Structural)]
pub enum ReplWord {
    Add,
    Remove,
    Load,
    Save,
}

/// [`ReplRequest`] with its texts as sequences of characters.
pub enum RequestModel {
    Quit,
    Help,
    Status,
    ShowPlaylist,
    ShowPlaylists,
    History,
    Resume,
    ShowVolume,
    Run(CommandModel),
    Load(Seq<char>),
    Save(Seq<char>),
    Usage(ReplWord),
    Unknown(Seq<char>),
}

impl View for ReplRequest {
    type V = RequestModel;

    open spec fn view(&self) -> RequestModel {
        match *self {
            ReplRequest::Quit => RequestModel::Quit,
            ReplRequest::Help => RequestModel::Help,
            ReplRequest::Status => RequestModel::Status,
            ReplRequest::ShowPlaylist => RequestModel::ShowPlaylist,
            ReplRequest::ShowPlaylists => RequestModel::ShowPlaylists,
            ReplRequest::History => RequestModel::History,
            ReplRequest::Resume => RequestModel::Resume,
            ReplRequest::ShowVolume => RequestModel::ShowVolume,
            ReplRequest::Run(command) => RequestModel::Run(command@),
            ReplRequest::Load(name) => RequestModel::Load(name@),
            ReplRequest::Save(name) => RequestModel::Save(name@),
            ReplRequest::Usage(word) => RequestModel::Usage(word),
            ReplRequest::Unknown(word) => RequestModel::Unknown(word@),
        }
    }
}

/// What a first word asks for, given what follows it.
pub open spec fn meaning(
    word: Seq<char>,
    argument: Option<Seq<char>>,
    first_argument: Option<Seq<char>>,
    level: Option<u32>,
) -> RequestModel {
    if word == "quit"@ || word == "exit"@ || word == "q"@ {
        RequestModel::Quit
    } else if word == "help"@ || word == "h"@ {
        RequestModel::Help
    } else if word == "status"@ {
        RequestModel::Status
    } else if word == "playlist"@ || word == "pl"@ {
        RequestModel::ShowPlaylist
    } else if word == "playlists"@ {
        RequestModel::ShowPlaylists
    } else if word == "history"@ {
        RequestModel::History
    } else if word == "play"@ {
        match argument {
            Some(track) => RequestModel::Run(CommandModel::Play(Some(track))),
            None => RequestModel::Resume,
        }
    } else if word == "pause"@ {
        RequestModel::Run(CommandModel::Pause)
    } else if word == "stop"@ {
        RequestModel::Run(CommandModel::Stop)
    } else if word == "next"@ || word == "n"@ {
        RequestModel::Run(CommandModel::Next)
    } else if word == "prev"@ || word == "p"@ {
        RequestModel::Run(CommandModel::Prev)
    } else if word == "add"@ || word == "a"@ {
        match argument {
            Some(track) => RequestModel::Run(CommandModel::Add(Some(track))),
            None => RequestModel::Usage(ReplWord::Add),
        }
    } else if word == "remove"@ || word == "rm"@ {
        match argument {
            Some(track) => RequestModel::Run(CommandModel::Remove(Some(track))),
            None => RequestModel::Usage(ReplWord::Remove),
        }
    } else if word == "volume"@ || word == "vol"@ || word == "v"@ {
        match first_argument {
            Some(_) => RequestModel::Run(CommandModel::Volume(level)),
            None => RequestModel::ShowVolume,
        }
    } else if word == "load"@ {
        match first_argument {
            Some(name) => RequestModel::Load(name),
            None => RequestModel::Usage(ReplWord::Load),
        }
    } else if word == "save"@ {
        match first_argument {
            Some(name) => RequestModel::Save(name),
            None => RequestModel::Usage(ReplWord::Save),
        }
    } else {
        RequestModel::Unknown(word)
    }
}

fn is_word(word: &String, literal: &str) -> (same: bool)
    ensures
        same == (word@ == literal@),
{
    *word == literal.to_owned()
}

/// Says what a line asks for.
pub fn interpret(line: ReplLine) -> (request: ReplRequest)
    ensures
        request@ == meaning(
            line.command@,
            text_of(line.argument),
            text_of(line.first_argument),
            line.level,
        ),
{
    let word = &line.command;
    if is_word(word, "quit") || is_word(word, "exit") || is_word(word, "q") {
        ReplRequest::Quit
    } else if is_word(word, "help") || is_word(word, "h") {
        ReplRequest::Help
    } else if is_word(word, "status") {
        ReplRequest::Status
    } else if is_word(word, "playlist") || is_word(word, "pl") {
        ReplRequest::ShowPlaylist
    } else if is_word(word, "playlists") {
        ReplRequest::ShowPlaylists
    } else if is_word(word, "history") {
        ReplRequest::History
    } else if is_word(word, "play") {
        match line.argument {
            Some(track) => ReplRequest::Run(Command::Play(Some(track))),
            None => ReplRequest::Resume,
        }
    } else if is_word(word, "pause") {
        ReplRequest::Run(Command::Pause)
    } else if is_word(word, "stop") {
        ReplRequest::Run(Command::Stop)
    } else if is_word(word, "next") || is_word(word, "n") {
        ReplRequest::Run(Command::Next)
    } else if is_word(word, "prev") || is_word(word, "p") {
        ReplRequest::Run(Command::Prev)
    } else if is_word(word, "add") || is_word(word, "a") {
        match line.argument {
            Some(track) => ReplRequest::Run(Command::Add(Some(track))),
            None => ReplRequest::Usage(ReplWord::Add),
        }
    } else if is_word(word, "remove") || is_word(word, "rm") {
        match line.argument {
            Some(track) => ReplRequest::Run(Command::Remove(Some(track))),
            None => ReplRequest::Usage(ReplWord::Remove),
        }
    } else if is_word(word, "volume") || is_word(word, "vol") || is_word(word, "v") {
        match line.first_argument {
            Some(_) => ReplRequest::Run(Command::Volume(line.level)),
            None => ReplRequest::ShowVolume,
        }
    } else if is_word(word, "load") {
        match line.first_argument {
            Some(name) => ReplRequest::Load(name),
            None => ReplRequest::Usage(ReplWord::Load),
        }
    } else if is_word(word, "save") {
        match line.first_argument {
            Some(name) => ReplRequest::Save(name),
            None => ReplRequest::Usage(ReplWord::Save),
        }
    } else {
        ReplRequest::Unknown(line.command)
    }
}

} // verus!
