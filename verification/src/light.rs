//! Commands to the light and the state it reports, as the words that
//! travel over the control and state characteristics.

use vstd::prelude::*;

verus! {

/// ASCII `close`.
pub open spec fn close_word() -> Seq<u8> {
    seq![99u8, 108u8, 111u8, 115u8, 101u8]
}

/// ASCII `open`.
pub open spec fn open_word() -> Seq<u8> {
    seq![111u8, 112u8, 101u8, 110u8]
}

/// ASCII `reset`.
pub open spec fn reset_word() -> Seq<u8> {
    seq![114u8, 101u8, 115u8, 101u8, 116u8]
}

/// ASCII `opened`.
pub open spec fn opened_word() -> Seq<u8> {
    seq![111u8, 112u8, 101u8, 110u8, 101u8, 100u8]
}

/// ASCII `closed`.
pub open spec fn closed_word() -> Seq<u8> {
    seq![99u8, 108u8, 111u8, 115u8, 101u8, 100u8]
}

/// Whether two byte strings are the same.
pub fn same_bytes(a: &[u8], b: &[u8]) -> (same: bool)
    ensures
        same == (a@ == b@),
{
    if a.len() != b.len() {
        return false;
    }
    let mut i: usize = 0;
    while i < a.len()
        invariant
            a@.len() == b@.len(),
            i <= a@.len(),
            a@.subrange(0, i as int) == b@.subrange(0, i as int),
        decreases a@.len() - i,
    {
        if a[i] != b[i] {
            assert(a@[i as int] != b@[i as int]);
            return false;
        }
        i += 1;
        assert(a@.subrange(0, i as int) =~= a@.subrange(0, i - 1).push(a@[i - 1]));
        assert(b@.subrange(0, i as int) =~= b@.subrange(0, i - 1).push(b@[i - 1]));
    }
    assert(a@ =~= a@.subrange(0, i as int));
    assert(b@ =~= b@.subrange(0, i as int));
    true
}

/// A command to the light.
#[derive(Debug, Clone, Copy, PartialEq, Eq, Structural)]
pub enum LightControl {
    Close,
    Open,
    Reset,
}

impl LightControl {
    /// The command that a word stands for, if it is one.
    pub open spec fn parsed(word: Seq<u8>) -> Option<LightControl> {
        if word == close_word() {
            Some(LightControl::Close)
        } else if word == open_word() {
            Some(LightControl::Open)
        } else if word == reset_word() {
            Some(LightControl::Reset)
        } else {
            None
        }
    }

    /// The word that stands for this command.
    pub open spec fn word(self) -> Seq<u8> {
        match self {
            LightControl::Close => close_word(),
            LightControl::Open => open_word(),
            LightControl::Reset => reset_word(),
        }
    }

    /// Every command is read back from its word.
    pub proof fn lemma_word_round_trip(self)
        ensures
            Self::parsed(self.word()) == Some(self),
    {
        assert(close_word().len() == 5 && open_word().len() == 4 && reset_word().len() == 5);
        assert(close_word()[0] == 99u8 && reset_word()[0] == 114u8);
    }

    /// Reads a command written to the control characteristic: `close`,
    /// `open` or `reset`; any other word is none.
    pub fn from_bytes(data: &[u8]) -> (r: Option<LightControl>)
        ensures
            r == Self::parsed(data@),
    {
        let close: Vec<u8> = vec![99u8, 108u8, 111u8, 115u8, 101u8];
        let open: Vec<u8> = vec![111u8, 112u8, 101u8, 110u8];
        let reset: Vec<u8> = vec![114u8, 101u8, 115u8, 101u8, 116u8];
        assert(close@ =~= close_word());
        assert(open@ =~= open_word());
        assert(reset@ =~= reset_word());
        if same_bytes(data, close.as_slice()) {
            Some(LightControl::Close)
        } else if same_bytes(data, open.as_slice()) {
            Some(LightControl::Open)
        } else if same_bytes(data, reset.as_slice()) {
            Some(LightControl::Reset)
        } else {
            None
        }
    }

    /// The word that stands for this command.
    pub fn to_bytes(&self) -> (out: Vec<u8>)
        ensures
            out@ == self.word(),
    {
        let out: Vec<u8> = match self {
            LightControl::Close => vec![99u8, 108u8, 111u8, 115u8, 101u8],
            LightControl::Open => vec![111u8, 112u8, 101u8, 110u8],
            LightControl::Reset => vec![114u8, 101u8, 115u8, 101u8, 116u8],
        };
        assert(out@ =~= self.word());
        out
    }
}

/// What the light reports of itself.
#[derive(Debug, Clone, Copy, PartialEq, Eq, Structural)]
pub enum LightState {
    Opened,
    Closed,
}

impl LightState {
    /// The state that a word stands for, if it is one.
    pub open spec fn parsed(word: Seq<u8>) -> Option<LightState> {
        if word == opened_word() {
            Some(LightState::Opened)
        } else if word == closed_word() {
            Some(LightState::Closed)
        } else {
            None
        }
    }

    /// The word that stands for this state.
    pub open spec fn word(self) -> Seq<u8> {
        match self {
            LightState::Opened => opened_word(),
            LightState::Closed => closed_word(),
        }
    }

    /// Every state is read back from its word.
    pub proof fn lemma_word_round_trip(self)
        ensures
            Self::parsed(self.word()) == Some(self),
    {
        assert(opened_word()[0] == 111u8 && closed_word()[0] == 99u8);
    }

    /// Reads the value of the state characteristic: `opened` or `closed`;
    /// any other word is none.
    pub fn from_bytes(value: &[u8]) -> (r: Option<LightState>)
        ensures
            r == Self::parsed(value@),
    {
        let opened: Vec<u8> = vec![111u8, 112u8, 101u8, 110u8, 101u8, 100u8];
        let closed: Vec<u8> = vec![99u8, 108u8, 111u8, 115u8, 101u8, 100u8];
        assert(opened@ =~= opened_word());
        assert(closed@ =~= closed_word());
        if same_bytes(value, opened.as_slice()) {
            Some(LightState::Opened)
        } else if same_bytes(value, closed.as_slice()) {
            Some(LightState::Closed)
        } else {
            None
        }
    }

    /// The word that stands for this state.
    pub fn to_bytes(&self) -> (out: Vec<u8>)
        ensures
            out@ == self.word(),
    {
        let out: Vec<u8> = match self {
            LightState::Opened => vec![111u8, 112u8, 101u8, 110u8, 101u8, 100u8],
            LightState::Closed => vec![99u8, 108u8, 111u8, 115u8, 101u8, 100u8],
        };
        assert(out@ =~= self.word());
        out
    }

    /// The command that a press of the button gives in this state: a closed
    /// light is opened, an open one closed.
    pub fn toggle(&self) -> (c: LightControl)
        ensures
            c == match *self {
                LightState::Closed => LightControl::Open,
                LightState::Opened => LightControl::Close,
            },
    {
        match self {
            LightState::Closed => LightControl::Open,
            LightState::Opened => LightControl::Close,
        }
    }
}

} // verus!
