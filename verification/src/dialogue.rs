//! Dialogue: the lines that a character says, shown one at a time.

use vstd::prelude::*;

verus! {

/// The lines of one character and how far they have been read.
#[derive(Debug)]
pub struct DialogueState {
    dialogue: Vec<String>,
    index: usize,
    eid: usize,
}

/// What a [`DialogueState`] holds.
pub struct DialogueStateView {
    /// The lines, in the order in which they are said.
    pub lines: Seq<Seq<char>>,
    /// The number of lines that are over.
    pub index: nat,
    /// The entity that speaks.
    pub eid: nat,
}

/// The texts of some lines.
pub open spec fn lines_of(dialogue: Seq<String>) -> Seq<Seq<char>> {
    dialogue.map_values(|line: String| line@)
}

impl View for DialogueState {
    type V = DialogueStateView;

    closed spec fn view(&self) -> DialogueStateView {
        DialogueStateView {
            lines: lines_of(self.dialogue@),
            index: self.index as nat,
            eid: self.eid as nat,
        }
    }
}

impl DialogueStateView {
    /// There is a line to show.
    pub open spec fn readable(self) -> bool {
        self.index < self.lines.len()
    }
}

impl DialogueState {
    /// A dialogue before its first line.
    pub fn new(dialogue: Vec<String>, eid: usize) -> (state: Self)
        ensures
            state@ == (DialogueStateView { lines: lines_of(dialogue@), index: 0, eid: eid as nat }),
    {
        DialogueState { dialogue, index: 0, eid }
    }

    /// True when there is a line to show.
    pub fn is_readable(&self) -> (readable: bool)
        ensures
            readable == self@.readable(),
            readable ==> self@.index < usize::MAX,
    {
        self.index < self.dialogue.len()
    }

    /// The line to show.
    pub fn read(&self) -> (line: &str)
        requires
            self@.readable(),
        ensures
            line@ == self@.lines[self@.index as int],
    {
        self.dialogue[self.index].as_str()
    }

    /// Goes on to the next line.
    pub fn advance(&mut self)
        requires
            old(self)@.index < usize::MAX,
        ensures
            final(self)@ == (DialogueStateView { index: old(self)@.index + 1, ..old(self)@ }),
    {
        self.index += 1;
    }

    /// The entity that speaks.
    pub fn eid(&self) -> (eid: usize)
        ensures
            eid == self@.eid,
    {
        self.eid
    }
}

/// How the text of a dialogue is drawn. The font is whatever the renderer
/// uses for one.
#[derive(Debug)]
pub struct OwnedTextParams<F> {
    pub font: Option<F>,
    pub font_size: u16,
    /// Red, green, blue and opacity, each from 0 to 255.
    pub color: [u8; 4],
}

/// Shows the dialogue of one character at a time, line by line.
#[derive(Debug)]
pub struct DialogueManager<F> {
    state: Option<DialogueState>,
    text_params: Option<OwnedTextParams<F>>,
}

impl<F> DialogueManager<F> {
    /// The dialogue that is loaded, if one is.
    pub closed spec fn state(&self) -> Option<DialogueStateView> {
        match self.state {
            Some(state) => Some(state@),
            None => None,
        }
    }

    /// How the text is drawn, if that was set.
    pub closed spec fn text_params(&self) -> Option<OwnedTextParams<F>> {
        self.text_params
    }

    /// What `handle_dialogue` leaves of a dialogue: it goes on by one line
    /// when the key was pressed, and it ends when no line is left to show.
    pub open spec fn handled(state: Option<DialogueStateView>, enter_pressed: bool) -> Option<
        DialogueStateView,
    > {
        match state {
            Some(s) => {
                let next = if enter_pressed && s.readable() {
                    DialogueStateView { index: s.index + 1, ..s }
                } else {
                    s
                };
                if next.readable() {
                    Some(next)
                } else {
                    None
                }
            },
            None => None,
        }
    }

    /// A manager without a dialogue and without text parameters.
    pub fn new() -> (manager: Self)
        ensures
            manager.state() is None,
            manager.text_params() is None,
    {
        DialogueManager { state: None, text_params: None }
    }

    /// A manager without a dialogue that draws its text as `text_params` say.
    pub fn from_text_params(text_params: OwnedTextParams<F>) -> (manager: Self)
        ensures
            manager.state() is None,
            manager.text_params() == Some(text_params),
    {
        DialogueManager { state: None, text_params: Some(text_params) }
    }

    /// Loads the dialogue of the entity `eid`, from its first line, unless a
    /// dialogue of that entity is loaded already.
    pub fn load_dialogue(&mut self, eid: usize, dialogue: Vec<String>)
        ensures
            final(self).text_params() == old(self).text_params(),
            final(self).state() == match old(self).state() {
                Some(s) if s.eid == eid => Some(s),
                _ => Some(
                    DialogueStateView { lines: lines_of(dialogue@), index: 0, eid: eid as nat },
                ),
            },
    {
        let loaded = match &self.state {
            Some(state) => state.eid == eid,
            None => false,
        };
        if !loaded {
            self.state = Some(DialogueState::new(dialogue, eid));
        }
    }

    /// True when a dialogue is loaded.
    pub fn has_loaded_dialogue(&self) -> (loaded: bool)
        ensures
            loaded == self.state() is Some,
    {
        self.state.is_some()
    }

    /// True when a dialogue is loaded and its first line is over.
    pub fn has_active_dialogue(&self) -> (active: bool)
        ensures
            active == match self.state() {
                Some(s) => s.index > 0,
                None => false,
            },
    {
        match &self.state {
            Some(state) => state.index > 0,
            None => false,
        }
    }

    /// How the text is drawn, if that was set.
    pub fn get_text_params(&self) -> (params: Option<&OwnedTextParams<F>>)
        ensures
            match params {
                Some(p) => self.text_params() == Some(*p),
                None => self.text_params() is None,
            },
    {
        self.text_params.as_ref()
    }

    /// One frame of the dialogue. With `enter_pressed` the dialogue goes on to
    /// its next line. If a line is left, it is returned with the text
    /// parameters; if none is, or no dialogue is loaded, the dialogue ends.
    pub fn handle_dialogue(&mut self, enter_pressed: bool) -> (shown: Option<
        (&str, Option<&OwnedTextParams<F>>),
    >)
        ensures
            final(self).text_params() == old(self).text_params(),
            final(self).state() == Self::handled(old(self).state(), enter_pressed),
            match shown {
                Some((line, params)) => {
                    &&& final(self).state() matches Some(s) && line@ == s.lines[s.index as int]
                    &&& match params {
                        Some(p) => final(self).text_params() == Some(*p),
                        None => final(self).text_params() is None,
                    }
                },
                None => final(self).state() is None,
            },
    {
        let keep = match &mut self.state {
            Some(state) => {
                if enter_pressed && state.is_readable() {
                    state.advance();
                }
                state.is_readable()
            },
            None => false,
        };
        if !keep {
            self.state = None;
            return None;
        }
        match &self.state {
            Some(state) => Some((state.read(), self.text_params.as_ref())),
            None => None,
        }
    }
}

} // verus!
