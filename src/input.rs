//! Turning the set of held keys into one per-tick intent.
use vstd::prelude::*;

verus! {

/// The keys the player controls read.
#[derive(Clone, Copy, Debug, PartialEq, Eq, Structural)]
pub enum Key {
    ArrowLeft,
    ArrowRight,
    ArrowUp,
    ArrowDown,
    KeyA,
    KeyD,
    KeyW,
    KeyS,
    Space,
    Escape,
}

/// The lateral part of an intent.
#[derive(Clone, Copy, Debug, PartialEq, Eq, Structural)]
pub enum Lateral {
    MoveLeft,
    MoveRight,
    Hold,
}

/// What the player asked for in one tick. Jump and roll are independent of
/// the lateral request.
#[derive(Clone, Copy, Debug, PartialEq, Eq, Structural)]
pub struct Intent {
    pub lateral: Lateral,
    pub jump: bool,
    pub roll: bool,
    pub quit: bool,
}

/// What a key is bound to. Every key has exactly one binding.
#[derive(Clone, Copy, Debug, PartialEq, Eq, Structural)]
pub enum Control {
    Left,
    Right,
    Jump,
    Roll,
    Quit,
}

/// The binding of each key: arrows and WASD move, Space also jumps, Escape quits.
pub open spec fn spec_control_of(k: Key) -> Control {
    match k {
        Key::ArrowLeft | Key::KeyA => Control::Left,
        Key::ArrowRight | Key::KeyD => Control::Right,
        Key::ArrowUp | Key::KeyW | Key::Space => Control::Jump,
        Key::ArrowDown | Key::KeyS => Control::Roll,
        Key::Escape => Control::Quit,
    }
}

/// Some held key is bound to `c`.
pub open spec fn any_held(held: Seq<Key>, c: Control) -> bool {
    exists|i: int| 0 <= i < held.len() && spec_control_of(#[trigger] held[i]) == c
}

/// The intent for a snapshot of held keys. When a left key and a right key
/// are both held, left wins.
pub open spec fn spec_classify(held: Seq<Key>) -> Intent {
    Intent {
        lateral: if any_held(held, Control::Left) {
            Lateral::MoveLeft
        } else if any_held(held, Control::Right) {
            Lateral::MoveRight
        } else {
            Lateral::Hold
        },
        jump: any_held(held, Control::Jump),
        roll: any_held(held, Control::Roll),
        quit: any_held(held, Control::Quit),
    }
}

/// The binding of a key.
pub fn control_of(k: Key) -> (r: Control)
    ensures
        r == spec_control_of(k),
{
    match k {
        Key::ArrowLeft | Key::KeyA => Control::Left,
        Key::ArrowRight | Key::KeyD => Control::Right,
        Key::ArrowUp | Key::KeyW | Key::Space => Control::Jump,
        Key::ArrowDown | Key::KeyS => Control::Roll,
        Key::Escape => Control::Quit,
    }
}

impl Intent {
    /// No request at all.
    pub fn idle() -> (r: Intent)
        ensures
            r == (Intent { lateral: Lateral::Hold, jump: false, roll: false, quit: false }),
    {
        Intent { lateral: Lateral::Hold, jump: false, roll: false, quit: false }
    }
}

/// Classifies the held keys. Duplicates and order do not matter; a left key
/// beats a right key held in the same tick.
pub fn classify(held: &Vec<Key>) -> (r: Intent)
    ensures
        r == spec_classify(held@),
{
    let mut left = false;
    let mut right = false;
    let mut jump = false;
    let mut roll = false;
    let mut quit = false;
    let mut i: usize = 0;
    while i < held.len()
        invariant
            0 <= i <= held@.len(),
            left == any_held(held@.take(i as int), Control::Left),
            right == any_held(held@.take(i as int), Control::Right),
            jump == any_held(held@.take(i as int), Control::Jump),
            roll == any_held(held@.take(i as int), Control::Roll),
            quit == any_held(held@.take(i as int), Control::Quit),
        decreases held@.len() - i,
    {
        let c = control_of(held[i]);
        proof {
            let t = held@.take(i as int);
            let t1 = held@.take(i + 1);
            assert(t1 =~= t.push(held@[i as int]));
            assert(t1[i as int] == held@[i as int]);
            assert forall|g: Control| any_held(t1, g) == (any_held(t, g) || spec_control_of(held@[i as int]) == g) by {
                if any_held(t1, g) {
                    let j = choose|j: int| 0 <= j < t1.len() && spec_control_of(#[trigger] t1[j]) == g;
                    if j < i {
                        assert(t[j] == t1[j]);
                    }
                }
                if any_held(t, g) {
                    let j = choose|j: int| 0 <= j < t.len() && spec_control_of(#[trigger] t[j]) == g;
                    assert(t1[j] == t[j]);
                }
            }
        }
        match c {
            Control::Left => { left = true; },
            Control::Right => { right = true; },
            Control::Jump => { jump = true; },
            Control::Roll => { roll = true; },
            Control::Quit => { quit = true; },
        }
        i = i + 1;
    }
    proof {
        assert(held@.take(i as int) =~= held@);
    }
    let lateral = if left {
        Lateral::MoveLeft
    } else if right {
        Lateral::MoveRight
    } else {
        Lateral::Hold
    };
    Intent { lateral, jump, roll, quit }
}

} // verus!
