use vstd::prelude::*;

verus! {

/// The keys that the game reacts to; every other key is `Other`.
#[derive(Clone, Copy, PartialEq, Eq, Structural, Debug, Hash)]
pub enum Key {
    ArrowUp,
    ArrowDown,
    ArrowLeft,
    ArrowRight,
    KeyW,
    KeyA,
    KeyS,
    KeyD,
    KeyR,
    Enter,
    NumpadEnter,
    Escape,
    Delete,
    Other,
}

/// Whether one of two keys is among the held keys.
pub open spec fn either_held(keys: Seq<Key>, a: Key, b: Key) -> bool {
    keys.contains(a) || keys.contains(b)
}

/// Whether `a` or `b` is among `keys`.
pub fn either_held_exec(keys: &[Key], a: Key, b: Key) -> (r: bool)
    ensures
        r == either_held(keys@, a, b),
{
    let mut found = false;
    for i in 0..keys.len()
        invariant
            found <==> exists|j: int| 0 <= j < i && (keys@[j] == a || keys@[j] == b),
    {
        if keys[i] == a || keys[i] == b {
            found = true;
        }
    }
    proof {
        if keys@.contains(a) {
            let j = choose|j: int| 0 <= j < keys@.len() && keys@[j] == a;
            assert(keys@[j] == a);
        }
        if keys@.contains(b) {
            let j = choose|j: int| 0 <= j < keys@.len() && keys@[j] == b;
            assert(keys@[j] == b);
        }
    }
    found
}

/// Steering from the held keys: `(h, v)` with `h` 1 for right, -1 for left
/// and `v` 1 for down, -1 for up, 0 where both or neither are held (arrows
/// and W, A, S, D alike).
pub open spec fn steering(keys: Seq<Key>) -> (int, int) {
    let u: int = if either_held(keys, Key::ArrowUp, Key::KeyW) { 1 } else { 0 };
    let d: int = if either_held(keys, Key::ArrowDown, Key::KeyS) { 1 } else { 0 };
    let l: int = if either_held(keys, Key::ArrowLeft, Key::KeyA) { 1 } else { 0 };
    let r: int = if either_held(keys, Key::ArrowRight, Key::KeyD) { 1 } else { 0 };
    (r - l, d - u)
}

/// Computes `steering`.
pub fn steering_exec(keys: &[Key]) -> (r: (i32, i32))
    ensures
        r.0 == steering(keys@).0,
        r.1 == steering(keys@).1,
{
    let u: i32 = if either_held_exec(keys, Key::ArrowUp, Key::KeyW) { 1 } else { 0 };
    let d: i32 = if either_held_exec(keys, Key::ArrowDown, Key::KeyS) { 1 } else { 0 };
    let l: i32 = if either_held_exec(keys, Key::ArrowLeft, Key::KeyA) { 1 } else { 0 };
    let r: i32 = if either_held_exec(keys, Key::ArrowRight, Key::KeyD) { 1 } else { 0 };
    (r - l, d - u)
}

} // verus!
