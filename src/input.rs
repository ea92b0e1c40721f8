//! The state of the keys that the game reads.
use vstd::prelude::*;
use vstd::string::StrSliceExecFns;

verus! {

/// Whether `a` and `b` hold the same characters.
pub fn same_text(a: &str, b: &str) -> (r: bool)
    ensures
        r == (a@ == b@),
{
    let n = a.unicode_len();
    if n != b.unicode_len() {
        return false;
    }
    let mut i: usize = 0;
    while i < n
        invariant
            n == a@.len(),
            n == b@.len(),
            i <= n,
            forall|k: int| 0 <= k < i ==> a@[k] == b@[k],
        decreases n - i,
    {
        if a.get_char(i) != b.get_char(i) {
            return false;
        }
        i += 1;
    }
    assert(a@ =~= b@);
    true
}

/// Which of the keys the game reads are held down.
#[derive(Clone, Copy, Debug, PartialEq, Eq, Structural, Default)]
pub struct KeyPress {
    pub key_a: bool,
    pub key_d: bool,
    pub key_k: bool,
    pub key_w: bool,
    pub space: bool,
    pub shift_left: bool,
}

impl KeyPress {
    /// No key held.
    pub fn new() -> (r: KeyPress)
        ensures
            !r.key_a && !r.key_d && !r.key_k && !r.key_w && !r.space && !r.shift_left,
    {
        KeyPress {
            key_a: false,
            key_d: false,
            key_k: false,
            key_w: false,
            space: false,
            shift_left: false,
        }
    }

    /// Records that the key whose code is `val` is now down (`new_val`) or up;
    /// other codes are ignored.
    pub fn update_from_str(&mut self, val: &str, new_val: bool)
        ensures
            *final(self) == (if val@ == "KeyA"@ {
                KeyPress { key_a: new_val, ..*old(self) }
            } else if val@ == "KeyD"@ {
                KeyPress { key_d: new_val, ..*old(self) }
            } else if val@ == "KeyK"@ {
                KeyPress { key_k: new_val, ..*old(self) }
            } else if val@ == "KeyW"@ {
                KeyPress { key_w: new_val, ..*old(self) }
            } else if val@ == "Space"@ {
                KeyPress { space: new_val, ..*old(self) }
            } else if val@ == "ShiftLeft"@ {
                KeyPress { shift_left: new_val, ..*old(self) }
            } else {
                *old(self)
            }),
    {
        if same_text(val, "KeyA") {
            self.key_a = new_val;
        } else if same_text(val, "KeyD") {
            self.key_d = new_val;
        } else if same_text(val, "KeyK") {
            self.key_k = new_val;
        } else if same_text(val, "KeyW") {
            self.key_w = new_val;
        } else if same_text(val, "Space") {
            self.space = new_val;
        } else if same_text(val, "ShiftLeft") {
            self.shift_left = new_val;
        }
    }

    #[allow(non_snake_case)]
    pub fn KeyA(&self) -> (r: bool)
        ensures
            r == self.key_a,
    {
        self.key_a
    }

    #[allow(non_snake_case)]
    pub fn KeyD(&self) -> (r: bool)
        ensures
            r == self.key_d,
    {
        self.key_d
    }

    #[allow(non_snake_case)]
    pub fn KeyK(&self) -> (r: bool)
        ensures
            r == self.key_k,
    {
        self.key_k
    }

    #[allow(non_snake_case)]
    pub fn KeyW(&self) -> (r: bool)
        ensures
            r == self.key_w,
    {
        self.key_w
    }

    #[allow(non_snake_case)]
    pub fn Space(&self) -> (r: bool)
        ensures
            r == self.space,
    {
        self.space
    }

    #[allow(non_snake_case)]
    pub fn ShiftLeft(&self) -> (r: bool)
        ensures
            r == self.shift_left,
    {
        self.shift_left
    }
}

} // verus!
