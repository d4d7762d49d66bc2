use vstd::prelude::*;

verus! {

/// Number of logical keys on the keypad.
pub const KEY_COUNT: usize = 16;

/// Level state of the 16 logical keys, `true` meaning held down.
pub struct Keypad {
    keys: [bool; 16],
}

impl View for Keypad {
    type V = Seq<bool>;

    closed spec fn view(&self) -> Seq<bool> {
        self.keys@
    }
}

/// Whether `key` names a key that is held down in `keys`; keys outside
/// the keypad are never down.
pub open spec fn key_down(keys: Seq<bool>, key: int) -> bool {
    0 <= key < KEY_COUNT && keys[key]
}

impl Keypad {
    /// A keypad with every key released.
    pub fn new() -> (r: Keypad)
        ensures
            r@ == Seq::new(KEY_COUNT as nat, |_i: int| false),
    {
        let r = Keypad { keys: [false; 16] };
        assert(r@ =~= Seq::new(KEY_COUNT as nat, |_i: int| false));
        r
    }

    /// Records that `key` is now held down (`down`) or released.
    pub fn set_pressed(&mut self, key: usize, down: bool)
        requires
            key < KEY_COUNT,
        ensures
            final(self)@ == old(self)@.update(key as int, down),
    {
        self.keys[key] = down;
    }

    /// Whether `key` is held down; any index past the keypad reads as up.
    pub fn is_pressed(&self, key: usize) -> (r: bool)
        ensures
            r == key_down(self@, key as int),
    {
        if key < KEY_COUNT {
            self.keys[key]
        } else {
            false
        }
    }
}

} // verus!
