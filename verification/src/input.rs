//! Keyboard input: which keys drive which movements, and the movement flags they set.
use vstd::prelude::*;

verus! {

/// Everything the player can be doing at once; each movement owns one bit of the flags word.
#[derive(Clone, Copy, Debug, PartialEq, Eq, Structural)]
pub enum Movement {
    Forward,
    Backward,
    Left,
    Right,
    Up,
    Down,
    PitchUp,
    PitchDown,
    YawLeft,
    YawRight,
}

impl Movement {
    /// The position of this movement's bit in the flags word.
    pub open spec fn bit_index(self) -> u32 {
        match self {
            Movement::Forward => 0,
            Movement::Backward => 1,
            Movement::Left => 2,
            Movement::Right => 3,
            Movement::Up => 4,
            Movement::Down => 5,
            Movement::PitchUp => 6,
            Movement::PitchDown => 7,
            Movement::YawLeft => 8,
            Movement::YawRight => 9,
        }
    }

    /// This movement's bit.
    pub open spec fn flag_of(self) -> u32 {
        1u32 << self.bit_index()
    }

    fn index(&self) -> (i: u32)
        ensures
            i == self.bit_index(),
    {
        match self {
            Movement::Forward => 0,
            Movement::Backward => 1,
            Movement::Left => 2,
            Movement::Right => 3,
            Movement::Up => 4,
            Movement::Down => 5,
            Movement::PitchUp => 6,
            Movement::PitchDown => 7,
            Movement::YawLeft => 8,
            Movement::YawRight => 9,
        }
    }

    /// This movement's bit in the flags word.
    pub fn flag(&self) -> (b: u32)
        ensures
            b == self.flag_of(),
    {
        1u32 << self.index()
    }
}

/// Whether movement `m` is switched on in `flags`.
pub open spec fn flag_set(flags: u32, m: Movement) -> bool {
    flags & m.flag_of() == m.flag_of()
}

/// Whether movement `m` is switched on in `flags`.
pub fn is_active(flags: u32, m: Movement) -> (on: bool)
    ensures
        on == flag_set(flags, m),
{
    let b = m.flag();
    flags & b == b
}

/// The flags after the key for `m` went down (switch `m` on) or up (switch it off);
/// every other bit is kept.
pub fn update_flags(flags: u32, m: Movement, is_key_down: bool) -> (out: u32)
    ensures
        out == if is_key_down {
            flags | m.flag_of()
        } else {
            flags & !m.flag_of()
        },
{
    let b = m.flag();
    if is_key_down {
        flags | b
    } else {
        flags & !b
    }
}

/// The keys the game reacts to; every other key is `Other`.
#[derive(Clone, Copy, Debug, PartialEq, Eq, Structural)]
pub enum Key {
    Esc,
    Up,
    Down,
    Left,
    Right,
    LeftShift,
    LeftControl,
    Char(char),
    Other,
}

/// What a key means to the game.
#[derive(Clone, Copy, Debug, PartialEq, Eq, Structural)]
pub enum KeyAction {
    /// Stop the game.
    Quit,
    /// Switch a movement on (key down) or off (key up).
    Move(Movement),
    /// Nothing.
    Ignore,
}

/// The lowercase mapping of `c`, as the characters that `char::to_lowercase` yields.
pub uninterp spec fn lowercase_of(c: char) -> Seq<char>;

/// The lowercase of an ASCII character: 'A' to 'Z' become 'a' to 'z', the rest stay.
pub open spec fn ascii_lowercase(c: char) -> char {
    if 65 <= (c as u32) <= 90 {
        ((c as u32) + 32) as char
    } else {
        c
    }
}

/// Runs `char::to_lowercase` on `c` and collects the characters it yields.
/// Claimed: the result holds exactly those characters, which depend on `c` alone; for an ASCII
/// character it is that one character in ASCII lowercase, as std documents.
/// Not claimed: what they are for a character outside ASCII (the Unicode case tables decide).
#[verifier::external_body]
fn to_lowercase(c: char) -> (s: String)
    ensures
        s@ == lowercase_of(c),
        (c as u32) < 128 ==> s@ == seq![ascii_lowercase(c)],
{
    c.to_lowercase().to_string()
}

/// The action of a character key, from the lowercase mapping `lowered` of the key and those of
/// 'q', 'w', 'a', 's' and 'd': quit, forward, left, backward, right, tried in that order.
pub fn char_action(
    lowered: &String,
    q: &String,
    w: &String,
    a: &String,
    s: &String,
    d: &String,
) -> (action: KeyAction)
    ensures
        action == if lowered@ == q@ {
            KeyAction::Quit
        } else if lowered@ == w@ {
            KeyAction::Move(Movement::Forward)
        } else if lowered@ == a@ {
            KeyAction::Move(Movement::Left)
        } else if lowered@ == s@ {
            KeyAction::Move(Movement::Backward)
        } else if lowered@ == d@ {
            KeyAction::Move(Movement::Right)
        } else {
            KeyAction::Ignore
        },
{
    if *lowered == *q {
        KeyAction::Quit
    } else if *lowered == *w {
        KeyAction::Move(Movement::Forward)
    } else if *lowered == *a {
        KeyAction::Move(Movement::Left)
    } else if *lowered == *s {
        KeyAction::Move(Movement::Backward)
    } else if *lowered == *d {
        KeyAction::Move(Movement::Right)
    } else {
        KeyAction::Ignore
    }
}

/// The meaning of a key: Esc and 'q' quit; the arrows pitch and yaw; left shift and left control
/// rise and sink; 'w', 'a', 's', 'd' walk. Letters match whatever their lowercase matches.
pub open spec fn key_meaning(key: Key) -> KeyAction {
    match key {
        Key::Esc => KeyAction::Quit,
        Key::Up => KeyAction::Move(Movement::PitchUp),
        Key::Down => KeyAction::Move(Movement::PitchDown),
        Key::Left => KeyAction::Move(Movement::YawLeft),
        Key::Right => KeyAction::Move(Movement::YawRight),
        Key::LeftShift => KeyAction::Move(Movement::Up),
        Key::LeftControl => KeyAction::Move(Movement::Down),
        Key::Char(c) => if lowercase_of(c) == lowercase_of('q') {
            KeyAction::Quit
        } else if lowercase_of(c) == lowercase_of('w') {
            KeyAction::Move(Movement::Forward)
        } else if lowercase_of(c) == lowercase_of('a') {
            KeyAction::Move(Movement::Left)
        } else if lowercase_of(c) == lowercase_of('s') {
            KeyAction::Move(Movement::Backward)
        } else if lowercase_of(c) == lowercase_of('d') {
            KeyAction::Move(Movement::Right)
        } else {
            KeyAction::Ignore
        },
        Key::Other => KeyAction::Ignore,
}
}

/// The meaning of an ASCII character key: its ASCII lowercase is looked up among
/// 'q', 'w', 'a', 's' and 'd'.
pub open spec fn ascii_char_meaning(c: char) -> KeyAction {
    let l = ascii_lowercase(c);
    if l == 'q' {
        KeyAction::Quit
    } else if l == 'w' {
        KeyAction::Move(Movement::Forward)
    } else if l == 'a' {
        KeyAction::Move(Movement::Left)
    } else if l == 's' {
        KeyAction::Move(Movement::Backward)
    } else if l == 'd' {
        KeyAction::Move(Movement::Right)
    } else {
        KeyAction::Ignore
    }
}

/// The meaning of a key (see `key_meaning`); for an ASCII character, spelled out through its
/// ASCII lowercase.
pub fn key_action(key: Key) -> (action: KeyAction)
    ensures
        action == key_meaning(key),
        key matches Key::Char(c) ==> ((c as u32) < 128 ==> action == ascii_char_meaning(c)),
{
    match key {
        Key::Esc => KeyAction::Quit,
        Key::Up => KeyAction::Move(Movement::PitchUp),
        Key::Down => KeyAction::Move(Movement::PitchDown),
        Key::Left => KeyAction::Move(Movement::YawLeft),
        Key::Right => KeyAction::Move(Movement::YawRight),
        Key::LeftShift => KeyAction::Move(Movement::Up),
        Key::LeftControl => KeyAction::Move(Movement::Down),
        Key::Char(c) => {
            let lowered = to_lowercase(c);
            let q = to_lowercase('q');
            let w = to_lowercase('w');
            let a = to_lowercase('a');
            let s = to_lowercase('s');
            let d = to_lowercase('d');
            proof {
                if (c as u32) < 128 {
                    assert(lowered@ == seq![ascii_lowercase(c)]);
                    assert(q@ == seq!['q']);
                    assert(w@ == seq!['w']);
                    assert(a@ == seq!['a']);
                    assert(s@ == seq!['s']);
                    assert(d@ == seq!['d']);
                    assert((lowered@ == q@) == (ascii_lowercase(c) == 'q')) by {
                        if lowered@ == q@ {
                            assert(lowered@[0] == q@[0]);
                        }
                    }
                    assert((lowered@ == w@) == (ascii_lowercase(c) == 'w')) by {
                        if lowered@ == w@ {
                            assert(lowered@[0] == w@[0]);
                        }
                    }
                    assert((lowered@ == a@) == (ascii_lowercase(c) == 'a')) by {
                        if lowered@ == a@ {
                            assert(lowered@[0] == a@[0]);
                        }
                    }
                    assert((lowered@ == s@) == (ascii_lowercase(c) == 's')) by {
                        if lowered@ == s@ {
                            assert(lowered@[0] == s@[0]);
                        }
                    }
                    assert((lowered@ == d@) == (ascii_lowercase(c) == 'd')) by {
                        if lowered@ == d@ {
                            assert(lowered@[0] == d@[0]);
                        }
                    }
                }
            }
            char_action(&lowered, &q, &w, &a, &s, &d)
        },
        Key::Other => KeyAction::Ignore,
    }
}

/// What the input loop does after one event.
#[derive(Clone, Copy, Debug, PartialEq, Eq, Structural)]
pub enum InputStep {
    /// Leave the loop.
    Stop,
    /// Keep listening, with these movement flags.
    Continue(u32),
    /// Leave the loop with the error that reading the event gave.
    Failed,
}

/// What the loop does, with movement flags `flags`, on a key of meaning `action`: quit, switch
/// the movement on (key down) or off (key up), or carry on unchanged.
pub open spec fn step_for(flags: u32, action: KeyAction, is_key_down: bool) -> InputStep {
    match action {
        KeyAction::Quit => InputStep::Stop,
        KeyAction::Move(m) => InputStep::Continue(
            if is_key_down {
                flags | m.flag_of()
            } else {
                flags & !m.flag_of()
            },
        ),
        KeyAction::Ignore => InputStep::Continue(flags),
    }
}

/// What the loop does on an event with key `key` (`None` for an event that is no key).
pub open spec fn key_step(flags: u32, key: Option<Key>, is_key_down: bool) -> InputStep {
    match key {
        None => InputStep::Continue(flags),
        Some(k) => step_for(flags, key_meaning(k), is_key_down),
    }
}

/// One turn of the input loop: `key` is the key of the event (`None` for an event that is no key
/// press), `is_key_down` whether it is a press or a repeat rather than a release.
pub fn handle_key_event(flags: u32, key: Option<Key>, is_key_down: bool) -> (step: InputStep)
    ensures
        step == key_step(flags, key, is_key_down),
        key matches Some(Key::Char(c)) ==> ((c as u32) < 128 ==> step == step_for(
            flags,
            ascii_char_meaning(c),
            is_key_down,
        )),
{
    match key {
        None => InputStep::Continue(flags),
        Some(k) => match key_action(k) {
            KeyAction::Quit => InputStep::Stop,
            KeyAction::Move(m) => InputStep::Continue(update_flags(flags, m, is_key_down)),
            KeyAction::Ignore => InputStep::Continue(flags),
        },
    }
}

/// One turn of the input loop after an event was read: a failed read (`read_ok` false) ends
/// the loop with its error; else a cleared running flag ends it; else the key decides.
pub fn input_step(
    flags: u32,
    read_ok: bool,
    running: bool,
    key: Option<Key>,
    is_key_down: bool,
) -> (step: InputStep)
    ensures
        step == if !read_ok {
            InputStep::Failed
        } else if !running {
            InputStep::Stop
        } else {
            key_step(flags, key, is_key_down)
        },
{
    if !read_ok {
        InputStep::Failed
    } else if !running {
        InputStep::Stop
    } else {
        handle_key_event(flags, key, is_key_down)
    }
}

proof fn lemma_flag_bits(f: u32, i: u32, j: u32)
    by (bit_vector)
    requires
        i < 10,
        j < 10,
    ensures
        (f | (1u32 << i)) & (1u32 << i) == (1u32 << i),
        (f & !(1u32 << i)) & (1u32 << i) != (1u32 << i),
        i != j ==> (((f | (1u32 << i)) & (1u32 << j) == (1u32 << j)) <==> (f & (1u32 << j) == (
        1u32 << j))),
        i != j ==> (((f & !(1u32 << i)) & (1u32 << j) == (1u32 << j)) <==> (f & (1u32 << j) == (
        1u32 << j))),
{
}

/// Pressing the key of a movement switches it on; releasing it switches it off;
/// either leaves every other movement as it was.
pub proof fn law_key_toggles_only_its_movement(flags: u32, m: Movement, other: Movement)
    ensures
        flag_set(flags | m.flag_of(), m),
        !flag_set(flags & !m.flag_of(), m),
        other != m ==> (flag_set(flags | m.flag_of(), other) == flag_set(flags, other)),
        other != m ==> (flag_set(flags & !m.flag_of(), other) == flag_set(flags, other)),
{
    lemma_flag_bits(flags, m.bit_index(), other.bit_index());
}

} // verus!
