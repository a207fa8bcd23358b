//! An editing session: the buffer is edited key by key until a key saves the
//! text or cancels the session.

use crate::keys::{Key, KeyPress, SAVE_CHAR};
use crate::lines::LINE_BREAK;
use crate::model::{lemma_operations_keep_wf, Buffer};
use crate::state::AppState;
use vstd::prelude::*;

verus! {

/// The stage a session is at, over the model of the buffer.
pub enum Stage {
    /// The text is being edited.
    Editing(Buffer),
    /// The session ended with the text to be kept.
    Saved(Seq<char>),
    /// The session ended with the changes thrown away.
    Cancelled,
}

/// What one key press makes of a buffer that is being edited.
///
/// The save press ends the session with the text as it stands; escape ends
/// it without a text. Enter and the character keys insert, backspace
/// deletes, the arrows move the cursor. Any other key changes nothing.
pub open spec fn dispatch(buffer: Buffer, key: KeyPress) -> Stage {
    if key.saves() {
        Stage::Saved(buffer.text)
    } else {
        match key.code {
            Key::Esc => Stage::Cancelled,
            Key::Enter => Stage::Editing(buffer.insert(LINE_BREAK)),
            Key::Char(c) => Stage::Editing(buffer.insert(c)),
            Key::Backspace => Stage::Editing(buffer.delete()),
            Key::Left => Stage::Editing(buffer.move_left()),
            Key::Right => Stage::Editing(buffer.move_right()),
            Key::Up => Stage::Editing(buffer.move_up()),
            Key::Down => Stage::Editing(buffer.move_down()),
            Key::Other => Stage::Editing(buffer),
        }
    }
}

impl Stage {
    /// The session has ended.
    pub open spec fn ended(self) -> bool {
        !(self is Editing)
    }

    /// The buffer, while the text is being edited, is well formed.
    pub open spec fn wf(self) -> bool {
        self matches Stage::Editing(buffer) ==> buffer.wf()
    }

    /// The stage after one key press. A session that has ended stays as it
    /// is.
    pub open spec fn on_key(self, key: KeyPress) -> Stage {
        match self {
            Stage::Editing(buffer) => dispatch(buffer, key),
            _ => self,
        }
    }

    /// The stage after the key presses `keys`, in order.
    pub open spec fn replay(self, keys: Seq<KeyPress>) -> Stage
        decreases keys.len(),
    {
        if keys.len() == 0 {
            self
        } else {
            self.replay(keys.drop_last()).on_key(keys.last())
        }
    }
}

/// Which key presses end a session, and how: the save press keeps the text
/// as it stands, escape keeps none, and no other press ends the session. A
/// well-formed buffer stays well formed.
pub proof fn lemma_dispatch_cases(buffer: Buffer, key: KeyPress)
    ensures
        dispatch(buffer, key) is Saved <==> key.saves(),
        key.saves() ==> dispatch(buffer, key) == Stage::Saved(buffer.text),
        dispatch(buffer, key) is Cancelled <==> !key.saves() && key.code == Key::Esc,
        dispatch(buffer, key) is Editing <==> !key.saves() && key.code != Key::Esc,
        buffer.wf() ==> dispatch(buffer, key).wf(),
{
    if buffer.wf() {
        lemma_operations_keep_wf(buffer, LINE_BREAK);
        if let Key::Char(c) = key.code {
            lemma_operations_keep_wf(buffer, c);
        }
    }
}

/// The first key press is handled first.
pub proof fn lemma_replay_first(stage: Stage, keys: Seq<KeyPress>)
    requires
        keys.len() > 0,
    ensures
        stage.replay(keys) == stage.on_key(keys[0]).replay(keys.skip(1)),
    decreases keys.len(),
{
    if keys.len() == 1 {
        assert(keys.drop_last() =~= Seq::<KeyPress>::empty());
        assert(keys.skip(1) =~= Seq::<KeyPress>::empty());
        assert(stage.replay(keys.drop_last()) == stage);
    } else {
        lemma_replay_first(stage, keys.drop_last());
        assert(keys.drop_last().skip(1) =~= keys.skip(1).drop_last());
    }
}

/// Handling one run of key presses and then another is handling the two as
/// one run.
pub proof fn lemma_replay_append(stage: Stage, first: Seq<KeyPress>, rest: Seq<KeyPress>)
    ensures
        stage.replay(first + rest) == stage.replay(first).replay(rest),
    decreases rest.len(),
{
    if rest.len() == 0 {
        assert(first + rest =~= first);
    } else {
        lemma_replay_append(stage, first, rest.drop_last());
        assert((first + rest).drop_last() =~= first + rest.drop_last());
    }
}

/// A session that has ended stays as it ended, whatever keys follow.
pub proof fn lemma_ended_stays(stage: Stage, keys: Seq<KeyPress>)
    requires
        stage.ended(),
    ensures
        stage.replay(keys) == stage,
    decreases keys.len(),
{
    if keys.len() > 0 {
        lemma_ended_stays(stage, keys.drop_last());
    }
}

/// Through a whole session the cursor stays an offset of the text.
pub proof fn lemma_replay_keeps_wf(stage: Stage, keys: Seq<KeyPress>)
    requires
        stage.wf(),
    ensures
        stage.replay(keys).wf(),
    decreases keys.len(),
{
    if keys.len() > 0 {
        lemma_replay_keeps_wf(stage, keys.drop_last());
        if let Stage::Editing(buffer) = stage.replay(keys.drop_last()) {
            lemma_dispatch_cases(buffer, keys.last());
        }
    }
}

/// A session: the buffer while the text is being edited, or how the session
/// ended.
#[derive(Debug, PartialEq, Eq)]
pub enum Session {
    /// The text is being edited.
    Editing(AppState),
    /// The session ended with this text to be kept.
    Saved(String),
    /// The session ended with the changes thrown away.
    Cancelled,
}

impl View for Session {
    type V = Stage;

    open spec fn view(&self) -> Stage {
        match self {
            Session::Editing(state) => Stage::Editing(state@),
            Session::Saved(text) => Stage::Saved(text@),
            Session::Cancelled => Stage::Cancelled,
        }
    }
}

impl AppState {
    /// Handles one key press: changes the buffer, or ends the session.
    pub fn dispatch(self, key: KeyPress) -> (next: Session)
        ensures
            next@ == dispatch(self@, key),
            next@.wf(),
    {
        let mut state = self;
        match key.code {
            Key::Char(c) => {
                if c == SAVE_CHAR && key.modifiers.is_control_only() {
                    return Session::Saved(state.text());
                }
                state.enter_char(c);
            },
            Key::Esc => {
                return Session::Cancelled;
            },
            Key::Enter => {
                state.enter_char(LINE_BREAK);
            },
            Key::Backspace => {
                state.delete_char();
            },
            Key::Left => {
                state.move_cursor_left();
            },
            Key::Right => {
                state.move_cursor_right();
            },
            Key::Up => {
                state.move_cursor_up();
            },
            Key::Down => {
                state.move_cursor_down();
            },
            Key::Other => {},
        }
        proof {
            use_type_invariant(&state);
        }
        Session::Editing(state)
    }
}

impl Session {
    /// A session on `initial_text`, with the cursor at its start.
    pub fn start(initial_text: &str) -> (session: Session)
        ensures
            session@ == Stage::Editing(Buffer { text: initial_text@, cursor: 0 }),
            session@.wf(),
    {
        Session::Editing(AppState::with_text(initial_text))
    }

    /// Handles one key press. A session that has ended stays as it is.
    pub fn on_key(self, key: KeyPress) -> (next: Session)
        ensures
            next@ == self@.on_key(key),
            next@.wf(),
    {
        match self {
            Session::Editing(state) => state.dispatch(key),
            ended => ended,
        }
    }

    /// Handles the key presses `keys` in order. The presses behind the one
    /// that ends the session have no effect.
    pub fn replay(self, keys: &Vec<KeyPress>) -> (last: Session)
        ensures
            last@ == self@.replay(keys@),
            last@.wf(),
    {
        let mut session = self;
        let mut i: usize = 0;
        proof {
            if let Session::Editing(state) = &session {
                use_type_invariant(state);
            }
        }
        while i < keys.len()
            invariant
                i <= keys.len(),
                session@ == self@.replay(keys@.take(i as int)),
                session@.wf(),
            decreases keys.len() - i,
        {
            proof {
                assert(keys@.take(i + 1).drop_last() =~= keys@.take(i as int));
            }
            session = session.on_key(keys[i]);
            i += 1;
        }
        proof {
            assert(keys@.take(keys.len() as int) =~= keys@);
        }
        session
    }

    /// The text to keep, where the session ended with one.
    pub fn saved_text(self) -> (text: Option<String>)
        ensures
            match self@ {
                Stage::Saved(saved) => text matches Some(kept) && kept@ == saved,
                _ => text is None,
            },
    {
        match self {
            Session::Saved(text) => Some(text),
            _ => None,
        }
    }
}

} // verus!
