//! Navigation through the menu tree: the stack of open rings, the hovered
//! wedge, and how clicks and keys move through them.
//!
//! Each open ring remembers the mid-angle of the wedge it fans out from;
//! angles are the renderer's business, so the stack carries them as an
//! opaque value `A` and never looks inside.
use vstd::prelude::*;
use crate::config::MenuItem;

verus! {

/// State of one open ring.
#[derive(Clone, Debug)]
pub struct LevelSelection<A> {
    /// The wedge of this ring whose submenu is open, if any.
    pub selected_child_index: Option<usize>,
    /// Mid-angle of the parent wedge this ring fans out from.
    pub parent_mid_angle: A,
}

/// The open rings (the root first) and the hovered wedge of the active
/// (outermost) ring.
pub struct Navigator<A> {
    pub stack: Vec<LevelSelection<A>>,
    pub hover: Option<usize>,
}

/// How a wedge is filled.
#[derive(Clone, Copy, Debug, PartialEq, Eq, Structural)]
pub enum WedgeStyle {
    /// A wedge of an inactive ring.
    Default,
    /// The hovered wedge of the active ring.
    Hover,
    /// The other wedges of the active ring.
    Active,
    /// The wedge whose submenu is open.
    Selected,
}

/// What activating a wedge did.
#[derive(Debug, PartialEq)]
pub enum Activation {
    /// Its submenu opened as a new ring.
    Opened,
    /// It is an action: run (or announce) this command; the menu closes.
    Run { label: String, command: Vec<String> },
}

/// The selections of a stack, level by level.
pub open spec fn selections<A>(s: Seq<LevelSelection<A>>) -> Seq<Option<usize>> {
    s.map_values(|l: LevelSelection<A>| l.selected_child_index)
}

/// The items shown on ring `level`: follow the open wedge of each ring
/// below it (a ring with none open shows its parent's items again); `None`
/// when an open index no longer exists in the tree.
pub open spec fn items_at(items: Seq<MenuItem>, sel: Seq<Option<usize>>, level: int) -> Option<
    Seq<MenuItem>,
>
    decreases level,
{
    if level <= 0 {
        Some(items)
    } else {
        match items_at(items, sel, level - 1) {
            None => None,
            Some(cur) => match sel[level - 1] {
                None => Some(cur),
                Some(i) => if i < cur.len() {
                    Some(cur[i as int].items@)
                } else {
                    None
                },
            },
        }
    }
}

/// The rings after opening wedge `idx` of the active ring: that wedge is
/// marked open and a new ring fans out from `angle`.
pub open spec fn open_ring<A>(s: Seq<LevelSelection<A>>, idx: usize, angle: A) -> Seq<LevelSelection<A>> {
    s.update(
        s.len() - 1,
        LevelSelection { selected_child_index: Some(idx), parent_mid_angle: s.last().parent_mid_angle },
    ).push(LevelSelection { selected_child_index: None, parent_mid_angle: angle })
}

/// The rings after closing the active ring: the ring below it becomes
/// active, with no wedge open.
pub open spec fn close_ring<A>(s: Seq<LevelSelection<A>>) -> Seq<LevelSelection<A>> {
    let t = s.drop_last();
    t.update(
        t.len() - 1,
        LevelSelection { selected_child_index: None, parent_mid_angle: t.last().parent_mid_angle },
    )
}

/// The index reached by moving one step forward (or back) from `cur` among
/// `count` wedges, wrapping around.
pub open spec fn cycled(cur: int, forward: bool, count: int) -> int {
    if forward {
        (cur + 1) % count
    } else {
        (cur - 1) % count
    }
}

/// Once an open index falls outside the tree, every ring above it is
/// missing too.
pub proof fn lemma_items_at_missing(items: Seq<MenuItem>, sel: Seq<Option<usize>>, j: int, level: int)
    requires
        0 <= j <= level,
        items_at(items, sel, j) is None,
    ensures
        items_at(items, sel, level) is None,
    decreases level - j,
{
    if j < level {
        lemma_items_at_missing(items, sel, j, level - 1);
    }
}

impl<A> Navigator<A> {
    /// Every ring but the active one has an open wedge; the active one has
    /// none.
    pub open spec fn wf(&self) -> bool {
        &&& self.stack@.len() >= 1
        &&& forall|k: int| 0 <= k < self.stack@.len() - 1 ==> (#[trigger] self.stack@[k]).selected_child_index is Some
        &&& self.stack@.last().selected_child_index is None
    }

    /// The index of the active ring.
    pub open spec fn level(&self) -> int {
        self.stack@.len() - 1
    }

    /// Only the root ring is open, nothing hovered.
    pub open spec fn at_start(&self, root: A) -> bool {
        &&& self.stack@.len() == 1
        &&& self.stack@[0].selected_child_index is None
        &&& self.stack@[0].parent_mid_angle == root
        &&& self.hover is None
    }

    /// The menu at its root ring, nothing hovered.
    pub fn new(root: A) -> (r: Navigator<A>)
        ensures
            r.at_start(root),
            r.wf(),
    {
        let mut stack: Vec<LevelSelection<A>> = Vec::new();
        stack.push(LevelSelection { selected_child_index: None, parent_mid_angle: root });
        Navigator { stack, hover: None }
    }

    /// Collapse to the root ring (menu shown again, configuration reloaded).
    pub fn reset(&mut self, root: A)
        ensures
            final(self).at_start(root),
            final(self).wf(),
    {
        let mut stack: Vec<LevelSelection<A>> = Vec::new();
        stack.push(LevelSelection { selected_child_index: None, parent_mid_angle: root });
        self.stack = stack;
        self.hover = None;
    }

    /// Only the root ring is open (the top pill shows there).
    pub fn at_root(&self) -> (r: bool)
        ensures
            r == (self.stack@.len() == 1),
    {
        self.stack.len() == 1
    }

    /// The items of ring `level`.
    pub fn items_at<'a>(&self, items: &'a Vec<MenuItem>, level: usize) -> (r: Option<&'a Vec<MenuItem>>)
        requires
            level < self.stack@.len(),
        ensures
            match r {
                Some(v) => items_at(items@, selections(self.stack@), level as int) == Some(v@),
                None => items_at(items@, selections(self.stack@), level as int) is None,
            },
    {
        let mut cur: &'a Vec<MenuItem> = items;
        let mut i: usize = 0;
        while i < level
            invariant
                level < self.stack@.len(),
                i <= level,
                items_at(items@, selections(self.stack@), i as int) == Some(cur@),
            decreases level - i,
        {
            assert(selections(self.stack@)[i as int] == self.stack@[i as int].selected_child_index);
            match self.stack[i].selected_child_index {
                Some(idx) => {
                    if idx < cur.len() {
                        cur = &cur[idx].items;
                    } else {
                        proof {
                            lemma_items_at_missing(
                                items@,
                                selections(self.stack@),
                                i + 1,
                                level as int,
                            );
                        }
                        return None;
                    }
                },
                None => {},
            }
            i = i + 1;
        }
        Some(cur)
    }

    /// The items of the active ring.
    pub fn active_items<'a>(&self, items: &'a Vec<MenuItem>) -> (r: Option<&'a Vec<MenuItem>>)
        requires
            self.wf(),
        ensures
            match r {
                Some(v) => items_at(items@, selections(self.stack@), self.level()) == Some(v@),
                None => items_at(items@, selections(self.stack@), self.level()) is None,
            },
    {
        self.items_at(items, self.stack.len() - 1)
    }

    /// How wedge `i` of ring `level` is filled: the wedge whose submenu is
    /// open is selected; on the active ring the hovered wedge is hovered and
    /// the others active; wedges of other rings take the default.
    pub fn wedge_style(&self, level: usize, i: usize) -> (r: WedgeStyle)
        requires
            level < self.stack@.len(),
        ensures
            r == if self.stack@[level as int].selected_child_index == Some(i) {
                WedgeStyle::Selected
            } else if level == self.stack@.len() - 1 && self.hover == Some(i) {
                WedgeStyle::Hover
            } else if level == self.stack@.len() - 1 {
                WedgeStyle::Active
            } else {
                WedgeStyle::Default
            },
    {
        let active = level == self.stack.len() - 1;
        if self.stack[level].selected_child_index == Some(i) {
            WedgeStyle::Selected
        } else if active && self.hover == Some(i) {
            WedgeStyle::Hover
        } else if active {
            WedgeStyle::Active
        } else {
            WedgeStyle::Default
        }
    }

    /// Point the hover at `h`; true when that changed it (a redraw is due).
    pub fn hover_to(&mut self, h: Option<usize>) -> (changed: bool)
        ensures
            final(self).hover == h,
            final(self).stack == old(self).stack,
            changed == (old(self).hover != h),
    {
        let changed = self.hover != h;
        self.hover = h;
        changed
    }

    /// Go back one ring: close the active ring and the open wedge under it.
    /// At the root nothing changes and `false` is returned (the caller
    /// closes the menu instead).
    pub fn back(&mut self) -> (popped: bool)
        requires
            old(self).wf(),
        ensures
            final(self).wf(),
            popped == (old(self).stack@.len() > 1),
            popped ==> final(self).stack@ == close_ring(old(self).stack@),
            popped ==> final(self).hover is None,
            !popped ==> *final(self) == *old(self),
    {
        if self.stack.len() > 1 {
            let ghost before = self.stack@;
            let _ = self.stack.pop();
            let mut top = self.stack.pop().unwrap();
            top.selected_child_index = None;
            self.stack.push(top);
            self.hover = None;
            assert(self.stack@ =~= close_ring(before));
            true
        } else {
            false
        }
    }

    /// Activate wedge `idx` of the active ring, whose items are `items`: a
    /// submenu opens as a new ring fanning out from `child_angle` (nothing
    /// hovered); an action is handed back to be run.
    pub fn activate(&mut self, items: &Vec<MenuItem>, idx: usize, child_angle: A) -> (r: Activation)
        requires
            old(self).wf(),
            idx < items@.len(),
        ensures
            final(self).wf(),
            items@[idx as int].items@.len() > 0 ==> {
                &&& r is Opened
                &&& final(self).stack@ == open_ring(old(self).stack@, idx, child_angle)
                &&& final(self).hover is None
            },
            items@[idx as int].items@.len() == 0 ==> {
                &&& r matches Activation::Run { label, command } && label@ == items@[idx as int].label@
                    && command@ == items@[idx as int].command@
                &&& *final(self) == *old(self)
            },
    {
        let item = &items[idx];
        if item.is_submenu() {
            let ghost before = self.stack@;
            let mut top = self.stack.pop().unwrap();
            top.selected_child_index = Some(idx);
            self.stack.push(top);
            self.stack.push(LevelSelection { selected_child_index: None, parent_mid_angle: child_angle });
            self.hover = None;
            assert(self.stack@ =~= open_ring(before, idx, child_angle));
            assert forall|k: int| 0 <= k < self.stack@.len() - 1 implies (#[trigger] self.stack@[k]).selected_child_index is Some by {
                if k < before.len() - 1 {
                    assert(self.stack@[k] == before[k]);
                }
            }
            Activation::Opened
        } else {
            Activation::Run { label: item.label.clone(), command: item.command.clone() }
        }
    }

    /// Move the hover one wedge forward or back among `count` wedges,
    /// wrapping around (from the first wedge when nothing is hovered); true
    /// when the hover changed.
    pub fn cycle_hover(&mut self, forward: bool, count: usize) -> (changed: bool)
        ensures
            final(self).stack == old(self).stack,
            count == 0 ==> final(self).hover == old(self).hover && !changed,
            count > 0 ==> final(self).hover == Some(
                cycled(
                    match old(self).hover {
                        Some(h) => h as int,
                        None => 0,
                    },
                    forward,
                    count as int,
                ) as usize,
            ),
            count > 0 ==> changed == (old(self).hover != final(self).hover),
            count > 0 ==> (final(self).hover matches Some(h) && h < count),
    {
        if count == 0 {
            return false;
        }
        let cur = match self.hover {
            Some(h) => h,
            None => 0,
        };
        let base = cur % count;
        let next = if forward {
            if base + 1 == count {
                0
            } else {
                base + 1
            }
        } else {
            if base == 0 {
                count - 1
            } else {
                base - 1
            }
        };
        proof {
            lemma_cycled(cur as int, forward, count as int, next as int);
        }
        let changed = self.hover != Some(next);
        self.hover = Some(next);
        changed
    }

    /// Hover wedge `n` (counting from 1) when the ring has that many
    /// wedges; true when it does.
    pub fn pick(&mut self, n: usize, count: usize) -> (picked: bool)
        ensures
            final(self).stack == old(self).stack,
            picked == (1 <= n <= count),
            picked ==> final(self).hover == Some((n - 1) as usize),
            !picked ==> final(self).hover == old(self).hover,
    {
        if n >= 1 && n <= count {
            self.hover = Some(n - 1);
            true
        } else {
            false
        }
    }

    /// The wedge Enter activates: the hovered one (the first when none is
    /// hovered), if the ring has it.
    pub fn enter_index(&self, count: usize) -> (r: Option<usize>)
        ensures
            r == ({
                let idx = match self.hover {
                    Some(h) => h,
                    None => 0,
                };
                if count == 0 || idx >= count {
                    None
                } else {
                    Some(idx)
                }
            }),
    {
        let idx = match self.hover {
            Some(h) => h,
            None => 0,
        };
        if count == 0 || idx >= count {
            None
        } else {
            Some(idx)
        }
    }
}

proof fn lemma_cycled(cur: int, forward: bool, count: int, next: int)
    requires
        count > 0,
        cur >= 0,
        forward ==> next == if cur % count + 1 == count {
            0
        } else {
            cur % count + 1
        },
        !forward ==> next == if cur % count == 0 {
            count - 1
        } else {
            cur % count - 1
        },
    ensures
        next == cycled(cur, forward, count),
        0 <= next < count,
{
    vstd::arithmetic::div_mod::lemma_fundamental_div_mod(cur, count);
    let q = cur / count;
    let r = cur % count;
    assert(0 <= r < count) by {
        vstd::arithmetic::div_mod::lemma_mod_pos_bound(cur, count);
    }
    assert(cur == count * q + r);
    vstd::arithmetic::mul::lemma_mul_is_commutative(q, count);
    assert(cur == q * count + r);
    if forward {
        if r + 1 < count {
            vstd::arithmetic::div_mod::lemma_fundamental_div_mod_converse(cur + 1, count, q, r + 1);
        } else {
            assert(cur + 1 == (q + 1) * count + 0) by (nonlinear_arith)
                requires
                    cur == q * count + r,
                    r + 1 == count,
            ;
            vstd::arithmetic::div_mod::lemma_fundamental_div_mod_converse(cur + 1, count, q + 1, 0);
        }
    } else {
        if r > 0 {
            vstd::arithmetic::div_mod::lemma_fundamental_div_mod_converse(cur - 1, count, q, r - 1);
        } else {
            assert(cur - 1 == (q - 1) * count + (count - 1)) by (nonlinear_arith)
                requires
                    cur == q * count + r,
                    r == 0,
            ;
            vstd::arithmetic::div_mod::lemma_fundamental_div_mod_converse(
                cur - 1,
                count,
                q - 1,
                count - 1,
            );
        }
    }
}

/// Opening a submenu and going back leaves the rings as they were.
pub proof fn lemma_back_undoes_open<A>(s: Seq<LevelSelection<A>>, idx: usize, angle: A)
    requires
        s.len() >= 1,
        s.last().selected_child_index is None,
    ensures
        close_ring(open_ring(s, idx, angle)) == s,
{
    let o = open_ring(s, idx, angle);
    assert(o.drop_last() =~= s.update(
        s.len() - 1,
        LevelSelection { selected_child_index: Some(idx), parent_mid_angle: s.last().parent_mid_angle },
    ));
    assert(close_ring(o) =~= s);
}

/// Every ring stays consistent: the active ring has no open wedge and
/// every ring below it has one, whatever is opened or closed.
pub proof fn lemma_rings_stay_consistent<A>(s: Seq<LevelSelection<A>>, idx: usize, angle: A)
    requires
        s.len() >= 1,
        forall|k: int| 0 <= k < s.len() - 1 ==> (#[trigger] s[k]).selected_child_index is Some,
        s.last().selected_child_index is None,
    ensures
        ({
            let o = open_ring(s, idx, angle);
            &&& o.len() == s.len() + 1
            &&& forall|k: int| 0 <= k < o.len() - 1 ==> (#[trigger] o[k]).selected_child_index is Some
            &&& o.last().selected_child_index is None
        }),
        s.len() > 1 ==> ({
            let c = close_ring(s);
            &&& c.len() == s.len() - 1
            &&& forall|k: int| 0 <= k < c.len() - 1 ==> (#[trigger] c[k]).selected_child_index is Some
            &&& c.last().selected_child_index is None
        }),
{
    let o = open_ring(s, idx, angle);
    assert forall|k: int| 0 <= k < o.len() - 1 implies (#[trigger] o[k]).selected_child_index is Some by {
        if k < s.len() - 1 {
            assert(o[k] == s[k]);
        }
    }
    if s.len() > 1 {
        let c = close_ring(s);
        assert forall|k: int| 0 <= k < c.len() - 1 implies (#[trigger] c[k]).selected_child_index is Some by {
            assert(c[k] == s[k]);
        }
    }
}

} // verus!
