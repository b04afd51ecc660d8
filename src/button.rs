use vstd::prelude::*;

use crate::input::InputState;
use crate::types::{ButtonId, ScreenPos, Size2};

verus! {

/// A clickable rectangle of the overlay: its lower left corner (y grows upwards)
/// and the size of its rendered label.
#[derive(Clone, Copy, Debug, PartialEq, Eq, Structural)]
pub struct Button {
    pub pos: ScreenPos,
    pub size: Size2,
}

impl Button {
    /// A button at `pos` whose rendered label measures `size`.
    pub fn new(pos: ScreenPos, size: Size2) -> (b: Button)
        ensures
            b == (Button { pos, size }),
    {
        Button { pos, size }
    }

    pub fn pos(&self) -> (p: ScreenPos)
        ensures
            p == self.pos,
    {
        self.pos
    }

    pub fn set_pos(&mut self, pos: ScreenPos)
        ensures
            *final(self) == (Button { pos, ..*old(self) }),
    {
        self.pos = pos;
    }

    pub fn size(&self) -> (s: Size2)
        ensures
            s == self.size,
    {
        self.size
    }

    /// The point `(x, y)` (y growing upwards) lies on the button, borders included.
    pub open spec fn hit(self, x: int, y: int) -> bool {
        &&& self.pos.x <= x <= self.pos.x + self.size.w
        &&& self.pos.y <= y <= self.pos.y + self.size.h
    }
}

/// A button and its id.
#[derive(Clone, Copy, Debug, PartialEq, Eq, Structural)]
pub struct ButtonEntry {
    pub id: ButtonId,
    pub button: Button,
}

/// The pointer position of `input` with y growing upwards.
pub open spec fn pointer_x(input: InputState) -> int {
    input.mouse.pos.x as int
}

pub open spec fn pointer_y(input: InputState) -> int {
    input.win_size.h - input.mouse.pos.y
}

/// The id of the first button, from position `i` on, that `(x, y)` hits.
pub open spec fn hit_from(s: Seq<ButtonEntry>, x: int, y: int, i: int) -> Option<ButtonId>
    decreases s.len() - i,
{
    if i < 0 || i >= s.len() {
        None
    } else if s[i].button.hit(x, y) {
        Some(s[i].id)
    } else {
        hit_from(s, x, y, i + 1)
    }
}

/// The buttons of one screen layer, in the order in which they were added.
#[derive(Clone, Debug)]
pub struct ButtonManager {
    buttons: Vec<ButtonEntry>,
    last_id: ButtonId,
}

impl View for ButtonManager {
    type V = Seq<ButtonEntry>;

    closed spec fn view(&self) -> Seq<ButtonEntry> {
        self.buttons@
    }
}

impl ButtonManager {
    /// The id that the next `add_button` hands out.
    pub closed spec fn next_id(&self) -> i32 {
        self.last_id.id
    }

    /// Ids are unique, non-negative and below the next id.
    pub open spec fn wf(&self) -> bool {
        &&& self.next_id() >= 0
        &&& forall|i: int| 0 <= i < self@.len() ==> 0 <= #[trigger] self@[i].id.id < self.next_id()
        &&& forall|i: int, j: int|
            0 <= i < self@.len() && 0 <= j < self@.len() && self@[i].id == self@[j].id ==> i == j
    }

    /// The button that a click at the pointer of `input` lands on.
    pub open spec fn clicked(&self, input: InputState) -> Option<ButtonId> {
        hit_from(self@, pointer_x(input), pointer_y(input), 0)
    }

    pub fn new() -> (m: ButtonManager)
        ensures
            m.wf(),
            m@.len() == 0,
            m.next_id() == 0,
    {
        ButtonManager { buttons: Vec::new(), last_id: ButtonId { id: 0 } }
    }

    /// All buttons with their ids.
    pub fn buttons(&self) -> (r: &Vec<ButtonEntry>)
        ensures
            r@ == self@,
    {
        &self.buttons
    }

    /// Adds `button` under the next id.
    pub fn add_button(&mut self, button: Button) -> (id: ButtonId)
        requires
            old(self).wf(),
            old(self).next_id() < i32::MAX,
        ensures
            final(self).wf(),
            id.id == old(self).next_id(),
            final(self).next_id() == old(self).next_id() + 1,
            final(self)@ == old(self)@.push(ButtonEntry { id, button }),
    {
        let id = self.last_id;
        let ghost before = self.buttons@;
        self.buttons.push(ButtonEntry { id, button });
        self.last_id = ButtonId { id: id.id + 1 };
        let ghost after = self.buttons@;
        assert forall|i: int| 0 <= i < after.len() implies 0 <= #[trigger] after[i].id.id < self.last_id.id by {
            if i < before.len() {
                assert(after[i] == before[i]);
                assert(0 <= old(self)@[i].id.id < old(self).next_id());
            }
        }
        assert forall|i: int, j: int|
            0 <= i < after.len() && 0 <= j < after.len() && after[i].id == after[j].id implies i == j by {
            if i < before.len() { assert(after[i] == before[i]); assert(0 <= old(self)@[i].id.id < old(self).next_id()); }
            if j < before.len() { assert(after[j] == before[j]); assert(0 <= old(self)@[j].id.id < old(self).next_id()); }
        }
        id
    }

    /// Removes the button `id`; returns whether there was one.
    pub fn remove_button(&mut self, id: ButtonId) -> (found: bool)
        requires
            old(self).wf(),
        ensures
            final(self).wf(),
            final(self).next_id() == old(self).next_id(),
            found == exists|k: int| 0 <= k < old(self)@.len() && old(self)@[k].id == id,
            found ==> exists|k: int|
                0 <= k < old(self)@.len() && old(self)@[k].id == id && final(self)@ == old(self)@.remove(k),
            !found ==> final(self)@ == old(self)@,
    {
        let mut k: usize = 0;
        while k < self.buttons.len()
            invariant
                k <= self.buttons@.len(),
                forall|m: int| 0 <= m < k ==> self.buttons@[m].id != id,
                self.wf(),
                self@ == old(self)@,
                self.last_id == old(self).last_id,
            decreases self.buttons@.len() - k,
        {
            if self.buttons[k].id == id {
                let ghost before = self.buttons@;
                self.buttons.remove(k);
                let ghost after = self.buttons@;
                assert forall|i: int| 0 <= i < after.len() implies 0 <= #[trigger] after[i].id.id < self.last_id.id by {
                    if i < k { assert(after[i] == before[i]); } else { assert(after[i] == before[i + 1]); }
                    let bi = if i < k { i } else { i + 1 };
                    assert(0 <= before[bi].id.id < self.last_id.id);
                }
                assert forall|i: int, j: int|
                    0 <= i < after.len() && 0 <= j < after.len() && after[i].id == after[j].id implies i == j by {
                    let bi = if i < k { i } else { i + 1 };
                    let bj = if j < k { j } else { j + 1 };
                    assert(after[i] == before[bi]);
                    assert(after[j] == before[bj]);
                }
                return true;
            }
            k = k + 1;
        }
        false
    }

    /// The first button, in order of addition, under the pointer of `input`.
    pub fn get_clicked_button_id(&self, input: &InputState) -> (r: Option<ButtonId>)
        ensures
            r == self.clicked(*input),
    {
        let x = input.mouse.pos.x as i64;
        let y = input.win_size.h as i64 - input.mouse.pos.y as i64;
        let mut k: usize = 0;
        while k < self.buttons.len()
            invariant
                k <= self.buttons@.len(),
                x == pointer_x(*input),
                y == pointer_y(*input),
                hit_from(self.buttons@, x as int, y as int, 0) == hit_from(self.buttons@, x as int, y as int, k as int),
            decreases self.buttons@.len() - k,
        {
            let b = self.buttons[k].button;
            if x >= b.pos.x as i64 && x <= b.pos.x as i64 + b.size.w as i64 && y >= b.pos.y as i64
                && y <= b.pos.y as i64 + b.size.h as i64 {
                return Some(self.buttons[k].id);
            }
            k = k + 1;
        }
        None
    }
}

} // verus!
