//! Registry of pinned image windows: a bounded list of pins, each of which
//! either takes the mouse or lets it through.
use vstd::prelude::*;
use crate::text::str_equals;

verus! {

/// One pinned window.
pub struct PinState {
    pub id: String,
    pub image_path: String,
    pub x: i32,
    pub y: i32,
    pub width: u32,
    pub height: u32,
    pub click_through: bool,
    pub is_minimized: bool,
}

/// Why a pin request was refused.
#[derive(Debug, Clone, Copy, PartialEq, Eq, Structural)]
pub enum PinError {
    /// Already as many pins as allowed (the limit is given).
    LimitReached(usize),
    /// No pin with that id is registered.
    NotFound,
}

/// All pinned windows.
pub struct PinManagerState {
    pub pins: Vec<PinState>,
    pub max_pins: usize,
}

/// The pins of `s` whose id is not `id`, in order.
pub open spec fn without_id(s: Seq<PinState>, id: Seq<char>) -> Seq<PinState>
    decreases s.len(),
{
    if s.len() == 0 {
        s
    } else {
        (if s[0].id@ != id { seq![s[0]] } else { Seq::empty() }) + without_id(s.drop_first(), id)
    }
}

/// Index of the first pin with id `id`, if any.
pub open spec fn first_with_id(s: Seq<PinState>, id: Seq<char>) -> Option<int>
    decreases s.len(),
{
    if s.len() == 0 {
        None
    } else if s[0].id@ == id {
        Some(0)
    } else {
        match first_with_id(s.drop_first(), id) {
            Some(i) => Some(i + 1),
            None => None,
        }
    }
}

/// `p` with its passthrough flag flipped.
pub open spec fn flipped(p: PinState) -> PinState {
    PinState { click_through: !p.click_through, ..p }
}

/// The pins after toggling the first pin with id `id`.
pub open spec fn toggled(s: Seq<PinState>, id: Seq<char>) -> Seq<PinState> {
    match first_with_id(s, id) {
        Some(i) => s.update(i, flipped(s[i])),
        None => s,
    }
}

proof fn lemma_first_with_id(s: Seq<PinState>, id: Seq<char>)
    ensures
        first_with_id(s, id) matches Some(i) ==> 0 <= i < s.len() && s[i].id@ == id && forall|k: int|
            0 <= k < i ==> s[k].id@ != id,
        first_with_id(s, id) is None ==> forall|k: int| 0 <= k < s.len() ==> s[k].id@ != id,
    decreases s.len(),
{
    if s.len() > 0 {
        let t = s.drop_first();
        lemma_first_with_id(t, id);
        if s[0].id@ != id {
            match first_with_id(t, id) {
                Some(j) => {
                    assert(s[j + 1] == t[j]);
                    assert forall|k: int| 0 <= k < j + 1 implies s[k].id@ != id by {
                        if k > 0 {
                            assert(s[k] == t[k - 1]);
                        }
                    }
                },
                None => {
                    assert forall|k: int| 0 <= k < s.len() implies s[k].id@ != id by {
                        if k > 0 {
                            assert(s[k] == t[k - 1]);
                        }
                    }
                },
            }
        }
    }
}

proof fn lemma_without_id(s: Seq<PinState>, id: Seq<char>)
    ensures
        forall|k: int| 0 <= k < without_id(s, id).len() ==> (#[trigger] without_id(s, id)[k]).id@ != id,
        without_id(s, id).len() <= s.len(),
    decreases s.len(),
{
    if s.len() > 0 {
        lemma_without_id(s.drop_first(), id);
        let head = if s[0].id@ != id { seq![s[0]] } else { Seq::empty() };
        let rest = without_id(s.drop_first(), id);
        assert forall|k: int| 0 <= k < without_id(s, id).len() implies (#[trigger] without_id(s, id)[k]).id@
            != id by {
            if k < head.len() {
            } else {
                assert(without_id(s, id)[k] == rest[k - head.len()]);
            }
        }
    }
}

impl PinState {
    /// The record of a newly pinned image: mouse passthrough on, not minimised.
    pub fn new_pinned(id: String, image_path: String, x: i32, y: i32, width: u32, height: u32) -> (res: Self)
        ensures
            res.id@ == id@,
            res.image_path@ == image_path@,
            res.x == x,
            res.y == y,
            res.width == width,
            res.height == height,
            res.click_through,
            !res.is_minimized,
    {
        PinState { id, image_path, x, y, width, height, click_through: true, is_minimized: false }
    }
}

impl PinManagerState {
    /// No pins; at most 8 at a time.
    pub fn new() -> (res: Self)
        ensures
            res.pins@.len() == 0,
            res.max_pins == 8,
            res.wf(),
    {
        PinManagerState { pins: Vec::new(), max_pins: 8 }
    }

    /// Never more pins than allowed.
    pub open spec fn wf(&self) -> bool {
        self.pins@.len() <= self.max_pins
    }

    /// Number of pinned windows.
    pub fn active_count(&self) -> (res: usize)
        ensures
            res == self.pins@.len(),
    {
        self.pins.len()
    }

    /// Whether another pin may be created (checked before its window is made).
    pub fn check_capacity(&self) -> (res: Result<(), PinError>)
        ensures
            res == (if self.pins@.len() >= self.max_pins {
                Err(PinError::LimitReached(self.max_pins))
            } else {
                Ok(())
            }),
    {
        if self.pins.len() >= self.max_pins {
            Err(PinError::LimitReached(self.max_pins))
        } else {
            Ok(())
        }
    }

    /// Registers a pin whose window was created; after a successful
    /// `check_capacity` the registry stays within its limit.
    pub fn add(&mut self, pin: PinState)
        ensures
            final(self).pins@ == old(self).pins@.push(pin),
            final(self).max_pins == old(self).max_pins,
            old(self).pins@.len() < old(self).max_pins ==> final(self).wf(),
    {
        self.pins.push(pin);
    }

    /// Forgets every pin with id `id`.
    pub fn remove(&mut self, id: &str)
        ensures
            final(self).pins@ == without_id(old(self).pins@, id@),
            final(self).max_pins == old(self).max_pins,
            final(self).pins@.len() <= old(self).pins@.len(),
            old(self).wf() ==> final(self).wf(),
            forall|k: int| 0 <= k < final(self).pins@.len() ==> (#[trigger] final(self).pins@[k]).id@ != id@,
    {
        let mut rest: Vec<PinState> = Vec::new();
        std::mem::swap(&mut rest, &mut self.pins);
        let ghost orig = rest@;
        assert(self.pins@ + without_id(rest@, id@) =~= without_id(orig, id@));
        while rest.len() > 0
            invariant
                self.pins@ + without_id(rest@, id@) == without_id(orig, id@),
                self.max_pins == old(self).max_pins,
                orig == old(self).pins@,
            decreases rest@.len(),
        {
            let ghost before = rest@;
            let p = rest.remove(0);
            assert(rest@ =~= before.drop_first());
            if !str_equals(p.id.as_str(), id) {
                self.pins.push(p);
                assert(self.pins@ + without_id(rest@, id@) =~= without_id(orig, id@));
            } else {
                assert(self.pins@ + without_id(rest@, id@) =~= without_id(orig, id@));
            }
        }
        assert(without_id(rest@, id@) =~= Seq::<PinState>::empty());
        assert(self.pins@ =~= without_id(orig, id@));
        proof {
            lemma_without_id(orig, id@);
        }
    }

    /// Flips the passthrough of the first pin with id `id` and returns its new
    /// setting.
    pub fn toggle_interaction(&mut self, id: &str) -> (res: Result<bool, PinError>)
        ensures
            final(self).pins@ == toggled(old(self).pins@, id@),
            final(self).max_pins == old(self).max_pins,
            final(self).pins@.len() == old(self).pins@.len(),
            match first_with_id(old(self).pins@, id@) {
                Some(i) => res == Ok::<bool, PinError>(!old(self).pins@[i].click_through),
                None => res == Err::<bool, PinError>(PinError::NotFound),
            },
    {
        proof {
            lemma_first_with_id(self.pins@, id@);
        }
        let mut i: usize = 0;
        while i < self.pins.len()
            invariant
                i <= self.pins@.len(),
                self.pins@ == old(self).pins@,
                self.max_pins == old(self).max_pins,
                forall|k: int| 0 <= k < i ==> self.pins@[k].id@ != id@,
            decreases self.pins@.len() - i,
        {
            if str_equals(self.pins[i].id.as_str(), id) {
                proof {
                    lemma_first_is(self.pins@, id@, i as int);
                }
                let p = self.pins.remove(i);
                let now_through = !p.click_through;
                let q = PinState { click_through: now_through, ..p };
                self.pins.insert(i, q);
                assert(self.pins@ =~= toggled(old(self).pins@, id@));
                assert(self.pins@.len() == old(self).pins@.len());
                return Ok(now_through);
            }
            i = i + 1;
        }
        proof {
            lemma_none_with_id(self.pins@, id@);
        }
        Err(PinError::NotFound)
    }
}

proof fn lemma_first_is(s: Seq<PinState>, id: Seq<char>, i: int)
    requires
        0 <= i < s.len(),
        s[i].id@ == id,
        forall|k: int| 0 <= k < i ==> s[k].id@ != id,
    ensures
        first_with_id(s, id) == Some(i),
    decreases s.len(),
{
    if i > 0 {
        assert forall|k: int| 0 <= k < i - 1 implies s.drop_first()[k].id@ != id by {
            assert(s.drop_first()[k] == s[k + 1]);
        }
        lemma_first_is(s.drop_first(), id, i - 1);
    }
}

proof fn lemma_none_with_id(s: Seq<PinState>, id: Seq<char>)
    requires
        forall|k: int| 0 <= k < s.len() ==> s[k].id@ != id,
    ensures
        first_with_id(s, id) is None,
    decreases s.len(),
{
    if s.len() > 0 {
        assert forall|k: int| 0 <= k < s.drop_first().len() implies s.drop_first()[k].id@ != id by {
            assert(s.drop_first()[k] == s[k + 1]);
        }
        lemma_none_with_id(s.drop_first(), id);
    }
}

/// Toggling the same pin twice restores the registry.
pub proof fn lemma_toggle_twice(s: Seq<PinState>, id: Seq<char>)
    ensures
        toggled(toggled(s, id), id) == s,
{
    lemma_first_with_id(s, id);
    match first_with_id(s, id) {
        Some(i) => {
            let t = toggled(s, id);
            lemma_first_with_id(t, id);
            assert(t[i].id@ == id);
            assert forall|k: int| 0 <= k < i implies t[k].id@ != id by {}
            lemma_first_is(t, id, i);
            assert(toggled(t, id) =~= s);
        },
        None => {},
    }
}

/// After removing an id no pin carries it and the others keep their order.
pub proof fn lemma_remove_clears_id(s: Seq<PinState>, id: Seq<char>)
    ensures
        forall|k: int| 0 <= k < without_id(s, id).len() ==> (#[trigger] without_id(s, id)[k]).id@ != id,
        without_id(s, id).len() <= s.len(),
{
    lemma_without_id(s, id);
}

} // verus!
