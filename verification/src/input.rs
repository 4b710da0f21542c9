//! Platform-neutral input events and the map from named actions to the
//! physical inputs bound to them.
use crate::strmap::StrMap;
use vstd::prelude::*;
use vstd::string::StrSliceExecFns;

verus! {

/// Phase of a touch (or mouse button) event.
#[derive(Debug, Clone, Copy, PartialEq, Eq, Structural)]
pub enum TouchPhase {
    Started,
    Moved,
    Ended,
    Cancelled,
}

/// A physical key press or release.
#[derive(Debug, Clone)]
pub struct KeyEvent {
    pub key: KeyCode,
    pub pressed: bool,
}

/// Subset of common key codes.
#[derive(Debug, Clone, Copy, PartialEq, Eq, Hash, Structural)]
pub enum KeyCode {
    A,
    B,
    C,
    D,
    E,
    F,
    G,
    H,
    I,
    J,
    K,
    L,
    M,
    N,
    O,
    P,
    Q,
    R,
    S,
    T,
    U,
    V,
    W,
    X,
    Y,
    Z,
    Key0,
    Key1,
    Key2,
    Key3,
    Key4,
    Key5,
    Key6,
    Key7,
    Key8,
    Key9,
    Space,
    Enter,
    Escape,
    Backspace,
    Tab,
    ArrowUp,
    ArrowDown,
    ArrowLeft,
    ArrowRight,
    ShiftLeft,
    ShiftRight,
    ControlLeft,
    ControlRight,
    Unknown,
}

/// The key a one-character key label stands for: a letter in either case, or
/// a digit; any other character is `Unknown`.
pub open spec fn key_for_char(c: char) -> KeyCode {
    match c {
            'a' | 'A' => KeyCode::A,
            'b' | 'B' => KeyCode::B,
            'c' | 'C' => KeyCode::C,
            'd' | 'D' => KeyCode::D,
            'e' | 'E' => KeyCode::E,
            'f' | 'F' => KeyCode::F,
            'g' | 'G' => KeyCode::G,
            'h' | 'H' => KeyCode::H,
            'i' | 'I' => KeyCode::I,
            'j' | 'J' => KeyCode::J,
            'k' | 'K' => KeyCode::K,
            'l' | 'L' => KeyCode::L,
            'm' | 'M' => KeyCode::M,
            'n' | 'N' => KeyCode::N,
            'o' | 'O' => KeyCode::O,
            'p' | 'P' => KeyCode::P,
            'q' | 'Q' => KeyCode::Q,
            'r' | 'R' => KeyCode::R,
            's' | 'S' => KeyCode::S,
            't' | 'T' => KeyCode::T,
            'u' | 'U' => KeyCode::U,
            'v' | 'V' => KeyCode::V,
            'w' | 'W' => KeyCode::W,
            'x' | 'X' => KeyCode::X,
            'y' | 'Y' => KeyCode::Y,
            'z' | 'Z' => KeyCode::Z,
            '0' => KeyCode::Key0,
            '1' => KeyCode::Key1,
            '2' => KeyCode::Key2,
            '3' => KeyCode::Key3,
            '4' => KeyCode::Key4,
            '5' => KeyCode::Key5,
            '6' => KeyCode::Key6,
            '7' => KeyCode::Key7,
            '8' => KeyCode::Key8,
            '9' => KeyCode::Key9,
            _ => KeyCode::Unknown,
        }
}

impl KeyCode {
    /// The key a character key label stands for (as a window system reports
    /// it): one letter in either case or one digit; anything else is `Unknown`.
    pub fn from_character(label: &str) -> (k: KeyCode)
        ensures
            k == if label@.len() == 1 {
                key_for_char(label@[0])
            } else {
                KeyCode::Unknown
            },
    {
        if label.unicode_len() != 1 {
            return KeyCode::Unknown;
        }
        match label.get_char(0) {
            'a' | 'A' => KeyCode::A,
            'b' | 'B' => KeyCode::B,
            'c' | 'C' => KeyCode::C,
            'd' | 'D' => KeyCode::D,
            'e' | 'E' => KeyCode::E,
            'f' | 'F' => KeyCode::F,
            'g' | 'G' => KeyCode::G,
            'h' | 'H' => KeyCode::H,
            'i' | 'I' => KeyCode::I,
            'j' | 'J' => KeyCode::J,
            'k' | 'K' => KeyCode::K,
            'l' | 'L' => KeyCode::L,
            'm' | 'M' => KeyCode::M,
            'n' | 'N' => KeyCode::N,
            'o' | 'O' => KeyCode::O,
            'p' | 'P' => KeyCode::P,
            'q' | 'Q' => KeyCode::Q,
            'r' | 'R' => KeyCode::R,
            's' | 'S' => KeyCode::S,
            't' | 'T' => KeyCode::T,
            'u' | 'U' => KeyCode::U,
            'v' | 'V' => KeyCode::V,
            'w' | 'W' => KeyCode::W,
            'x' | 'X' => KeyCode::X,
            'y' | 'Y' => KeyCode::Y,
            'z' | 'Z' => KeyCode::Z,
            '0' => KeyCode::Key0,
            '1' => KeyCode::Key1,
            '2' => KeyCode::Key2,
            '3' => KeyCode::Key3,
            '4' => KeyCode::Key4,
            '5' => KeyCode::Key5,
            '6' => KeyCode::Key6,
            '7' => KeyCode::Key7,
            '8' => KeyCode::Key8,
            '9' => KeyCode::Key9,
            _ => KeyCode::Unknown,
        }
    }
}

/// Direction of a recognized swipe.
#[derive(Debug, Clone, Copy, PartialEq, Eq, Structural)]
pub enum SwipeDirection {
    Up,
    Down,
    Left,
    Right,
}

/// A physical input that can be bound to an action.
#[derive(Debug, Clone, PartialEq, Eq, Hash, Structural)]
pub enum InputBinding {
    Key(KeyCode),
    Tap,
    DoubleTap,
    SwipeUp,
    SwipeDown,
    SwipeLeft,
    SwipeRight,
    PinchIn,
    PinchOut,
    GamepadButton(u32),
    GamepadAxis { axis: u32, positive: bool },
}

/// Maps physical inputs to named actions.
pub struct InputMap {
    bindings: StrMap<Vec<InputBinding>>,
}

impl InputMap {
    /// Each action's bindings, in the order they were bound.
    pub closed spec fn spec_bindings(&self) -> Map<Seq<char>, Seq<InputBinding>> {
        self.bindings.map().map_values(|v: Vec<InputBinding>| v@)
    }

    /// The bindings of `action`, empty when it has none.
    pub open spec fn bindings_of(&self, action: Seq<char>) -> Seq<InputBinding> {
        if self.spec_bindings().contains_key(action) {
            self.spec_bindings()[action]
        } else {
            Seq::empty()
        }
    }

    pub fn new() -> (m: Self)
        ensures
            m.spec_bindings() == Map::<Seq<char>, Seq<InputBinding>>::empty(),
    {
        let m = InputMap { bindings: StrMap::new() };
        assert(m.spec_bindings() =~= Map::<Seq<char>, Seq<InputBinding>>::empty());
        m
    }

    /// Bind `binding` to `action`, after any bindings it already has.
    pub fn bind(&mut self, action: &str, binding: InputBinding) -> (r: &mut Self)
        ensures
            r.spec_bindings() == old(self).spec_bindings().insert(
                action@,
                old(self).bindings_of(action@).push(binding),
            ),
            *final(self) == *final(r),
    {
        match self.bindings.find(action) {
            Some(i) => {
                let mut current = self.bindings.swap_value(i, Vec::new());
                current.push(binding);
                self.bindings.swap_value(i, current);
                proof {
                    assert(self.spec_bindings() =~= old(self).spec_bindings().insert(
                        action@,
                        old(self).bindings_of(action@).push(binding),
                    ));
                }
            },
            None => {
                let mut v: Vec<InputBinding> = Vec::new();
                v.push(binding);
                self.bindings.insert(action.to_owned(), v);
                proof {
                    assert(v@ =~= Seq::<InputBinding>::empty().push(binding));
                    assert(self.spec_bindings() =~= old(self).spec_bindings().insert(
                        action@,
                        old(self).bindings_of(action@).push(binding),
                    ));
                }
            },
        }
        self
    }

    /// The bindings of `action`, empty when it has none.
    pub fn bindings_for(&self, action: &str) -> (b: &[InputBinding])
        ensures
            b@ == self.bindings_of(action@),
    {
        match self.bindings.get(action) {
            Some(v) => v.as_slice(),
            None => {
                let e: &[InputBinding] = &[];
                assert(e@ =~= Seq::<InputBinding>::empty());
                e
            },
        }
    }
}

} // verus!

verus! {

/// A set of keys kept as a vector without repeats.
struct KeySet {
    keys: Vec<KeyCode>,
}

impl KeySet {
    closed spec fn set(&self) -> Set<KeyCode> {
        Set::new(|k: KeyCode| self.keys@.contains(k))
    }

    #[verifier::type_invariant]
    closed spec fn wf(&self) -> bool {
        self.keys@.no_duplicates()
    }

    fn new() -> (s: Self)
        ensures
            s.set() == Set::<KeyCode>::empty(),
    {
        let s = KeySet { keys: Vec::new() };
        assert(s.set() =~= Set::<KeyCode>::empty());
        s
    }

    fn position(&self, k: KeyCode) -> (r: Option<usize>)
        ensures
            r is Some <==> self.set().contains(k),
            r matches Some(i) ==> i < self.keys@.len() && self.keys@[i as int] == k,
    {
        let mut i: usize = 0;
        while i < self.keys.len()
            invariant
                i <= self.keys@.len(),
                forall|j: int| 0 <= j < i ==> self.keys@[j] != k,
            decreases self.keys.len() - i,
        {
            if self.keys[i] == k {
                return Some(i);
            }
            i = i + 1;
        }
        None
    }

    fn contains(&self, k: KeyCode) -> (b: bool)
        ensures
            b == self.set().contains(k),
    {
        self.position(k).is_some()
    }

    /// Add `k`; true when it was not there before.
    fn insert(&mut self, k: KeyCode) -> (added: bool)
        ensures
            final(self).set() == old(self).set().insert(k),
            added == !old(self).set().contains(k),
    {
        if self.contains(k) {
            proof {
                assert(self.set() =~= old(self).set().insert(k));
            }
            false
        } else {
            proof {
                use_type_invariant(&*self);
                let o = self.keys@;
                assert forall|a: int, b: int| 0 <= a < b < o.push(k).len() implies o.push(k)[a]
                    != o.push(k)[b] by {
                    if b == o.len() {
                        assert(o[a] == o.push(k)[a]);
                        assert(!o.contains(k));
                    }
                }
            }
            let mut keys: Vec<KeyCode> = Vec::new();
            std::mem::swap(&mut keys, &mut self.keys);
            keys.push(k);
            self.keys = keys;
            proof {
                let o = old(self).keys@;
                assert(self.keys@[o.len() as int] == k);
                assert forall|q: KeyCode| #[trigger] self.keys@.contains(q) == (o.contains(q) || q == k) by {
                    if o.contains(q) {
                        let j = choose|j: int| 0 <= j < o.len() && o[j] == q;
                        assert(self.keys@[j] == q);
                    }
                }
                assert(self.set() =~= old(self).set().insert(k));
            }
            true
        }
    }

    fn remove(&mut self, k: KeyCode)
        ensures
            final(self).set() == old(self).set().remove(k),
    {
        match self.position(k) {
            Some(i) => {
                proof {
                    use_type_invariant(&*self);
                    let o = self.keys@;
                    let r = o.remove(i as int);
                    assert forall|a: int, b: int| 0 <= a < b < r.len() implies r[a] != r[b] by {
                        let a1 = if a < i { a } else { a + 1 };
                        let b1 = if b < i { b } else { b + 1 };
                        assert(r[a] == o[a1]);
                        assert(r[b] == o[b1]);
                    }
                }
                let mut keys: Vec<KeyCode> = Vec::new();
                std::mem::swap(&mut keys, &mut self.keys);
                keys.remove(i);
                self.keys = keys;
                proof {
                    let o = old(self).keys@;
                    assert forall|q: KeyCode| #[trigger] self.keys@.contains(q) == (o.contains(q) && q != k) by {
                        if o.contains(q) && q != k {
                            let j = choose|j: int| 0 <= j < o.len() && o[j] == q;
                            if j < i {
                                assert(self.keys@[j] == q);
                            } else {
                                assert(j != i);
                                assert(self.keys@[j - 1] == q);
                            }
                        }
                        if self.keys@.contains(q) {
                            let j = choose|j: int| 0 <= j < self.keys@.len() && self.keys@[j] == q;
                            if j < i {
                                assert(o[j] == q);
                                assert(j != i as int);
                            } else {
                                assert(o[j + 1] == q);
                                assert(j + 1 != i as int);
                            }
                        }
                    }
                    assert(self.set() =~= old(self).set().remove(k));
                }
            },
            None => {
                proof {
                    assert(self.set() =~= old(self).set().remove(k));
                }
            },
        }
    }

    fn clear(&mut self)
        ensures
            final(self).set() == Set::<KeyCode>::empty(),
    {
        self.keys = Vec::new();
        proof {
            assert(self.set() =~= Set::<KeyCode>::empty());
        }
    }
}

/// Whether `binding` is active given the keys `keys` and whether a tap was
/// recognized: keys by membership, `Tap` by the tap, every other kind never.
pub open spec fn binding_active(binding: InputBinding, keys: Set<KeyCode>, tapped: bool) -> bool {
    match binding {
        InputBinding::Key(k) => keys.contains(k),
        InputBinding::Tap => tapped,
        _ => false,
    }
}

/// Whether any of `bindings` is active.
pub open spec fn any_active(bindings: Seq<InputBinding>, keys: Set<KeyCode>, tapped: bool) -> bool {
    exists|i: int| 0 <= i < bindings.len() && #[trigger] binding_active(bindings[i], keys, tapped)
}

/// Only key and tap bindings activate an action: bindings make an action
/// active exactly when one of them is a key in `keys`, or `Tap` while a tap
/// was recognized. Swipes, pinches, double taps and gamepad bindings never do.
pub proof fn lemma_active_iff_key_or_tap(bindings: Seq<InputBinding>, keys: Set<KeyCode>, tapped: bool)
    ensures
        any_active(bindings, keys, tapped) <==> exists|i: int|
            0 <= i < bindings.len() && ((#[trigger] bindings[i] matches InputBinding::Key(k)
                && keys.contains(k)) || (bindings[i] is Tap && tapped)),
{
    if any_active(bindings, keys, tapped) {
        let i = choose|i: int| 0 <= i < bindings.len() && #[trigger] binding_active(bindings[i], keys, tapped);
        assert((bindings[i] matches InputBinding::Key(k) && keys.contains(k)) || (bindings[i] is Tap && tapped));
    }
    if exists|i: int|
        0 <= i < bindings.len() && ((#[trigger] bindings[i] matches InputBinding::Key(k)
            && keys.contains(k)) || (bindings[i] is Tap && tapped)) {
        let i = choose|i: int|
            0 <= i < bindings.len() && ((#[trigger] bindings[i] matches InputBinding::Key(k)
                && keys.contains(k)) || (bindings[i] is Tap && tapped));
        assert(binding_active(bindings[i], keys, tapped));
    }
}

/// An action none of whose bindings is a key or `Tap` is never active,
/// whatever keys are held and whether or not a tap was recognized.
pub proof fn lemma_other_bindings_never_active(bindings: Seq<InputBinding>, keys: Set<KeyCode>, tapped: bool)
    requires
        forall|i: int| 0 <= i < bindings.len() ==> !(#[trigger] bindings[i] is Key) && !(bindings[i] is Tap),
    ensures
        !any_active(bindings, keys, tapped),
{
    lemma_active_iff_key_or_tap(bindings, keys, tapped);
}

/// Keyboard state across frames: keys held, and keys that went down or up
/// during the current frame.
pub struct KeyboardState {
    pressed: KeySet,
    just_pressed: KeySet,
    just_released: KeySet,
}

impl KeyboardState {
    pub closed spec fn pressed_keys(&self) -> Set<KeyCode> {
        self.pressed.set()
    }

    pub closed spec fn just_pressed_keys(&self) -> Set<KeyCode> {
        self.just_pressed.set()
    }

    pub closed spec fn just_released_keys(&self) -> Set<KeyCode> {
        self.just_released.set()
    }

    pub fn new() -> (s: Self)
        ensures
            s.pressed_keys() == Set::<KeyCode>::empty(),
            s.just_pressed_keys() == Set::<KeyCode>::empty(),
            s.just_released_keys() == Set::<KeyCode>::empty(),
    {
        KeyboardState { pressed: KeySet::new(), just_pressed: KeySet::new(), just_released: KeySet::new() }
    }

    /// Start a frame: forget which keys went down or up last frame.
    pub fn begin_frame(&mut self)
        ensures
            final(self).pressed_keys() == old(self).pressed_keys(),
            final(self).just_pressed_keys() == Set::<KeyCode>::empty(),
            final(self).just_released_keys() == Set::<KeyCode>::empty(),
    {
        self.just_pressed.clear();
        self.just_released.clear();
    }

    /// Apply a key press or release. A press counts as "just pressed" only
    /// when the key was not already held; a release always counts as "just
    /// released".
    pub fn process_key(&mut self, event: &KeyEvent)
        ensures
            event.pressed ==> {
                &&& final(self).pressed_keys() == old(self).pressed_keys().insert(event.key)
                &&& final(self).just_pressed_keys() == if old(self).pressed_keys().contains(event.key) {
                    old(self).just_pressed_keys()
                } else {
                    old(self).just_pressed_keys().insert(event.key)
                }
                &&& final(self).just_released_keys() == old(self).just_released_keys()
            },
            !event.pressed ==> {
                &&& final(self).pressed_keys() == old(self).pressed_keys().remove(event.key)
                &&& final(self).just_pressed_keys() == old(self).just_pressed_keys()
                &&& final(self).just_released_keys() == old(self).just_released_keys().insert(event.key)
            },
    {
        if event.pressed {
            if self.pressed.insert(event.key) {
                self.just_pressed.insert(event.key);
            }
        } else {
            self.pressed.remove(event.key);
            self.just_released.insert(event.key);
        }
    }

    pub fn key_pressed(&self, key: KeyCode) -> (b: bool)
        ensures
            b == self.pressed_keys().contains(key),
    {
        self.pressed.contains(key)
    }

    pub fn key_just_pressed(&self, key: KeyCode) -> (b: bool)
        ensures
            b == self.just_pressed_keys().contains(key),
    {
        self.just_pressed.contains(key)
    }

    pub fn key_just_released(&self, key: KeyCode) -> (b: bool)
        ensures
            b == self.just_released_keys().contains(key),
    {
        self.just_released.contains(key)
    }

    fn any_binding_active(bindings: &[InputBinding], keys: &KeySet, tapped: bool) -> (b: bool)
        ensures
            b == any_active(bindings@, keys.set(), tapped),
    {
        let mut i: usize = 0;
        while i < bindings.len()
            invariant
                i <= bindings@.len(),
                forall|j: int| 0 <= j < i ==> !#[trigger] binding_active(bindings@[j], keys.set(), tapped),
            decreases bindings.len() - i,
        {
            let active = match &bindings[i] {
                InputBinding::Key(k) => keys.contains(*k),
                InputBinding::Tap => tapped,
                _ => false,
            };
            if active {
                proof {
                    assert(binding_active(bindings@[i as int], keys.set(), tapped));
                }
                return true;
            }
            i = i + 1;
        }
        false
    }

    /// Whether `action` is active: one of its keys is held, or it is bound to
    /// `Tap` and a tap was recognized this frame.
    pub fn action_pressed(&self, action: &str, map: &InputMap, tapped: bool) -> (b: bool)
        ensures
            b == any_active(map.bindings_of(action@), self.pressed_keys(), tapped),
    {
        Self::any_binding_active(map.bindings_for(action), &self.pressed, tapped)
    }

    /// Whether `action` was triggered this frame: one of its keys went down, or
    /// it is bound to `Tap` and a tap was recognized this frame.
    pub fn action_just_pressed(&self, action: &str, map: &InputMap, tapped: bool) -> (b: bool)
        ensures
            b == any_active(map.bindings_of(action@), self.just_pressed_keys(), tapped),
    {
        Self::any_binding_active(map.bindings_for(action), &self.just_pressed, tapped)
    }

    /// Holding a key down reports "just pressed" once: a second press of a
    /// held key leaves the just-pressed set as it was.
    pub proof fn lemma_repeat_press_not_new(&self, k: KeyCode)
        requires
            self.pressed_keys().contains(k),
        ensures
            self.pressed_keys().insert(k) == self.pressed_keys(),
    {
        assert(self.pressed_keys().insert(k) =~= self.pressed_keys());
    }
}

} // verus!
