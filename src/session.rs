//! The state of an interactive session: the chord list, the tuning, the
//! tonal centre and the two input lines, and how each key press changes it.

use vstd::prelude::*;
use crate::parser::pitch_classes_valid;
use crate::pitch::{note_pitch_class, note_to_pitch_class};
use crate::text::{pop_char, push_char, split_words, words_of};

verus! {

/// Which input line key presses edit.
#[derive(Clone, Copy, Debug, PartialEq, Eq, Structural)]
pub enum InputMode {
    Chord,
    Tuning,
}

/// A key press, as far as the session tells keys apart.
#[derive(Clone, Copy, Debug, PartialEq, Eq, Structural)]
pub enum KeyInput {
    Esc,
    Enter,
    Up,
    Down,
    Tab,
    Backspace,
    Char(char),
    Other,
}

/// Number of strings a tuning line must name.
pub const STRING_COUNT: usize = 6;

/// A session: the chord input line and the chord symbols last submitted,
/// the tuning input line and the tuning last submitted, the tonal centre
/// and the line being edited.
pub struct App {
    pub input: String,
    pub progression: Vec<String>,
    pub tuning_input: String,
    pub tuning: Vec<u8>,
    pub key: u8,
    pub input_mode: InputMode,
}

/// The value an `App` holds.
pub ghost struct AppModel {
    pub input: Seq<char>,
    pub progression: Seq<Seq<char>>,
    pub tuning_input: Seq<char>,
    pub tuning: Seq<u8>,
    pub key: u8,
    pub input_mode: InputMode,
}

impl View for App {
    type V = AppModel;

    open spec fn view(&self) -> AppModel {
        AppModel {
            input: self.input@,
            progression: self.progression.deep_view(),
            tuning_input: self.tuning_input@,
            tuning: self.tuning@,
            key: self.key,
            input_mode: self.input_mode,
        }
    }
}

impl App {
    /// The tonal centre and every tuned pitch lie in 0..12.
    pub open spec fn wf(&self) -> bool {
        self.key < 12 && pitch_classes_valid(self.tuning@)
    }
}

/// The pitch class of a tuning word; a word that names no note counts as C.
pub open spec fn tuning_pitch(w: Seq<char>) -> u8 {
    match note_pitch_class(w) {
        Some(p) => p,
        None => 0,
    }
}

/// The tuning that a line of words sets: one pitch class per word when
/// there are exactly six words, none otherwise.
pub open spec fn tuning_of(words: Seq<Seq<char>>) -> Option<Seq<u8>> {
    if words.len() == STRING_COUNT {
        Some(words.map_values(|w: Seq<char>| tuning_pitch(w)))
    } else {
        None
    }
}

/// The session after Enter: a non-empty chord line replaces the chord
/// symbols by its words and is cleared; a tuning line of six words replaces
/// the tuning. Both lines are taken, whichever is being edited.
pub open spec fn submitted(m: AppModel) -> AppModel {
    let m1 = if m.input.len() > 0 {
        AppModel { progression: words_of(m.input), input: Seq::empty(), ..m }
    } else {
        m
    };
    match tuning_of(words_of(m.tuning_input)) {
        Some(t) => AppModel { tuning: t, ..m1 },
        None => m1,
    }
}

/// The line being edited after a key press: a character is appended,
/// Backspace drops the last character.
pub open spec fn edited(line: Seq<char>, k: KeyInput) -> Seq<char> {
    match k {
        KeyInput::Char(c) => line.push(c),
        KeyInput::Backspace => if line.len() > 0 {
            line.drop_last()
        } else {
            line
        },
        _ => line,
    }
}

/// The session after a key press other than Esc: Enter submits, Up and
/// Down move the tonal centre a semitone round the circle, Tab switches the
/// line being edited, and characters and Backspace edit it.
pub open spec fn after_key(m: AppModel, k: KeyInput) -> AppModel {
    let m1 = match k {
        KeyInput::Enter => submitted(m),
        KeyInput::Up => AppModel { key: ((m.key + 1) % 12) as u8, ..m },
        KeyInput::Down => AppModel { key: ((m.key + 11) % 12) as u8, ..m },
        _ => m,
    };
    match m1.input_mode {
        InputMode::Chord => if k == KeyInput::Tab {
            AppModel { input_mode: InputMode::Tuning, ..m1 }
        } else {
            AppModel { input: edited(m1.input, k), ..m1 }
        },
        InputMode::Tuning => if k == KeyInput::Tab {
            AppModel { input_mode: InputMode::Chord, ..m1 }
        } else {
            AppModel { tuning_input: edited(m1.tuning_input, k), ..m1 }
        },
    }
}

/// The tuning that the words of a tuning line set: with exactly six words,
/// each word's pitch class (C for a word that names no note).
pub fn tuning_from_words(words: &Vec<String>) -> (r: Option<Vec<u8>>)
    ensures
        match tuning_of(words.deep_view()) {
            Some(t) => r matches Some(v) && v@ == t,
            None => r is None,
        },
        r matches Some(v) ==> pitch_classes_valid(v@),
{
    if words.len() != STRING_COUNT {
        return None;
    }
    let ghost dv = words.deep_view();
    let mut v: Vec<u8> = Vec::new();
    let mut i: usize = 0;
    while i < words.len()
        invariant
            dv == words.deep_view(),
            dv.len() == words@.len(),
            i <= words@.len(),
            v@.len() == i,
            forall|j: int| 0 <= j < i ==> v@[j] == tuning_pitch(#[trigger] dv[j]),
            pitch_classes_valid(v@),
        decreases words@.len() - i,
    {
        let p = match note_to_pitch_class(words[i].as_str()) {
            Some(p) => p,
            None => 0,
        };
        assert(dv[i as int] == words@[i as int]@);
        v.push(p);
        i += 1;
    }
    assert(v@ =~= dv.map_values(|w: Seq<char>| tuning_pitch(w)));
    Some(v)
}

/// Moves `line` as a key press edits it.
fn edit_line(line: &mut String, k: KeyInput)
    ensures
        final(line)@ == edited(old(line)@, k),
{
    match k {
        KeyInput::Char(c) => push_char(line, c),
        KeyInput::Backspace => {
            let _ = pop_char(line);
        },
        _ => {},
    }
}

impl App {
    /// A session on the chords Fm9, C/Bb, G13 and Dbdim7, tuned C G D G A D,
    /// centred on C and editing the chord line.
    pub fn new() -> (r: App)
        ensures
            r.wf(),
            r@.input.len() == 0,
            r@.progression == seq!["Fm9"@, "C/Bb"@, "G13"@, "Dbdim7"@],
            r@.tuning_input == "C G D G A D"@,
            r@.tuning == seq![0u8, 7, 2, 7, 9, 2],
            r@.key == 0,
            r@.input_mode == InputMode::Chord,
    {
        let progression = vec![
            String::from_str("Fm9"),
            String::from_str("C/Bb"),
            String::from_str("G13"),
            String::from_str("Dbdim7"),
        ];
        let tuning: Vec<u8> = vec![0, 7, 2, 7, 9, 2];
        let r = App {
            input: String::new(),
            progression,
            tuning_input: String::from_str("C G D G A D"),
            tuning,
            key: 0,
            input_mode: InputMode::Chord,
        };
        assert(r@.progression =~= seq!["Fm9"@, "C/Bb"@, "G13"@, "Dbdim7"@]);
        assert(r@.tuning =~= seq![0u8, 7, 2, 7, 9, 2]);
        r
    }

    /// Takes both input lines: the chord line's words become the chord
    /// symbols (when the line is not empty) and the line is cleared; a
    /// tuning line of six words becomes the tuning.
    pub fn submit(&mut self)
        requires
            old(self).wf(),
        ensures
            final(self).wf(),
            final(self)@ == submitted(old(self)@),
    {
        if self.input.unicode_len() > 0 {
            self.progression = split_words(self.input.as_str());
            self.input = String::new();
        }
        let words = split_words(self.tuning_input.as_str());
        if let Some(t) = tuning_from_words(&words) {
            self.tuning = t;
        }
    }

    /// Handles one key press and says whether it ends the session (Esc,
    /// which changes nothing).
    pub fn handle_key(&mut self, k: KeyInput) -> (quit: bool)
        requires
            old(self).wf(),
        ensures
            final(self).wf(),
            quit == (k == KeyInput::Esc),
            quit ==> final(self)@ == old(self)@,
            !quit ==> final(self)@ == after_key(old(self)@, k),
    {
        match k {
            KeyInput::Esc => return true,
            KeyInput::Enter => self.submit(),
            KeyInput::Up => self.key = (self.key + 1) % 12,
            KeyInput::Down => self.key = (self.key + 11) % 12,
            _ => {},
        }
        match self.input_mode {
            InputMode::Chord => {
                if k == KeyInput::Tab {
                    self.input_mode = InputMode::Tuning;
                } else {
                    edit_line(&mut self.input, k);
                }
            },
            InputMode::Tuning => {
                if k == KeyInput::Tab {
                    self.input_mode = InputMode::Chord;
                } else {
                    edit_line(&mut self.tuning_input, k);
                }
            },
        }
        false
    }
}

} // verus!
