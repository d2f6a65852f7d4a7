use vstd::prelude::*;
use crate::bitmap::{background_color, Bitmap, BitmapView, BITMAP_SIDE};
use crate::handle_table::{GenericHandle, Handle};
use crate::object_environment::DeviceContext;
use crate::two_d::{Point, Rect};

verus! {

/// A window on screen.
pub struct Window {
    pub position: Point,
    pub width: i16,
    pub height: i16,
    pub front_bitmap: Option<Bitmap>,
}

/// The task that owns a window.
#[derive(Debug, Eq, PartialEq, Copy, Clone, Structural)]
pub struct ProcessId(pub u16);

impl ProcessId {
    pub fn null() -> (r: Self)
        ensures
            r.0 == 0,
    {
        Self(0)
    }
}

/// A window across tasks: its task and its handle there.
#[derive(Debug, Eq, PartialEq, Copy, Clone, Structural)]
pub struct WindowIdentifier {
    pub process_id: ProcessId,
    pub window_handle: Handle,
}

impl WindowIdentifier {
    /// The window `child_handle` of the same task.
    pub fn other_handle(&self, child_handle: Handle) -> (r: Self)
        ensures
            r.process_id == self.process_id,
            r.window_handle == child_handle,
    {
        Self { process_id: self.process_id, window_handle: child_handle }
    }
}

/// The windows on screen and their stacking order.
pub struct WindowManager {
    window_stack: Vec<WindowIdentifier>,
    windows: Vec<(WindowIdentifier, Window)>,
}

/// `number`, unless it is the "use default" value -32768.
pub open spec fn number_or_default(number: i16, default: i16) -> i16 {
    if number == -32768 {
        default
    } else {
        number
    }
}

/// `after` is `before` with the window `id` created or replaced: -32768 for a coordinate
/// means 0, for the width 400 and for the height 300; it has a bitmap of the background
/// color of its own unless it draws on its parent's; the stack and every other window
/// are as they were.
pub open spec fn window_placed(
    before: WindowManager,
    after: WindowManager,
    id: WindowIdentifier,
    x: i16,
    y: i16,
    width: i16,
    height: i16,
    use_parent_bitmap: bool,
) -> bool {
    &&& after.stack() == before.stack()
    &&& after.has_window(id)
    &&& after.window(id).position == (Point { x: number_or_default(x, 0), y: number_or_default(y, 0) })
    &&& after.window(id).width == number_or_default(width, 400)
    &&& after.window(id).height == number_or_default(height, 300)
    &&& (after.window(id).front_bitmap is Some <==> !use_parent_bitmap)
    &&& (after.window(id).front_bitmap matches Some(b) ==> b.pixels() == Seq::new(250000, |i: int| background_color()))
    &&& forall|other: WindowIdentifier|
        other != id ==> (#[trigger] after.has_window(other) == before.has_window(other) && (before.has_window(
            other,
        ) ==> after.window(other) == before.window(other)))
}

/// A stack that did not change keeps its windows once each.
proof fn lemma_stack_kept(before: WindowManager, after: WindowManager)
    requires
        before.stack_unique(),
        after.stack() == before.stack(),
    ensures
        after.stack_unique(),
{
}

/// `after` is the stack `before` with `id` on top: taken from its place if it had one.
pub open spec fn brought_to_front(before: Seq<WindowIdentifier>, after: Seq<WindowIdentifier>, id: WindowIdentifier) -> bool {
    &&& (forall|i: int| 0 <= i < before.len() ==> before[i] != id) ==> after == before.push(id)
    &&& forall|k: int|
        0 <= k < before.len() && before[k] == id && (forall|i: int| 0 <= i < k ==> before[i] != id) ==> after
            == before.remove(k).push(id)
}

/// `w` with the front bitmap `b`.
pub open spec fn with_front_bitmap(w: Window, b: Option<Bitmap>) -> Window {
    Window { front_bitmap: b, ..w }
}

/// `after` is `before` with the front bitmap of window `id` replaced by `b`.
pub open spec fn front_bitmap_set(
    before: Seq<(WindowIdentifier, Window)>,
    after: Seq<(WindowIdentifier, Window)>,
    id: WindowIdentifier,
    b: Option<Bitmap>,
) -> bool {
    &&& after.len() == before.len()
    &&& forall|i: int|
        0 <= i < before.len() ==> #[trigger] after[i] == if before[i].0 == id {
            (id, with_front_bitmap(before[i].1, b))
        } else {
            before[i]
        }
}

/// `b` holds the pixels, size and current position of `drawn`, with its origin at (0, 0).
pub open spec fn holds_drawing(b: Bitmap, drawn: Bitmap) -> bool {
    &&& b.pixels() == drawn.pixels()
    &&& b.moved_to() == drawn.moved_to()
    &&& b.spec_width() == drawn.spec_width()
    &&& b.spec_height() == drawn.spec_height()
    &&& b.translation() == Point::origin_spec()
}

/// `after` is `before` with the front bitmap of window `id` replaced by one that holds
/// `drawn`; every other window is as it was and window `id` keeps its place and size.
pub open spec fn drawing_returned(
    before: Seq<(WindowIdentifier, Window)>,
    after: Seq<(WindowIdentifier, Window)>,
    id: WindowIdentifier,
    drawn: Bitmap,
) -> bool {
    &&& after.len() == before.len()
    &&& forall|i: int|
        #![trigger after[i]]
        0 <= i < before.len() ==> {
            &&& after[i].0 == before[i].0
            &&& before[i].0 != id ==> after[i] == before[i]
            &&& before[i].0 == id ==> {
                &&& after[i].1.position == before[i].1.position
                &&& after[i].1.width == before[i].1.width
                &&& after[i].1.height == before[i].1.height
                &&& after[i].1.front_bitmap is Some
                &&& holds_drawing(after[i].1.front_bitmap->0, drawn)
            }
        }
}

/// `after` is `before` with the front bitmap of window `id` redrawn: the windows keep their
/// order, every other window is as it was, window `id` keeps its place and size, and its
/// bitmap before, `ob`, and after, `nb`, are related by `drawn(ob, nb)`.
pub open spec fn bitmap_redrawn(
    before: Seq<(WindowIdentifier, Window)>,
    after: Seq<(WindowIdentifier, Window)>,
    id: WindowIdentifier,
    drawn: spec_fn(Bitmap, Bitmap) -> bool,
) -> bool {
    &&& after.len() == before.len()
    &&& forall|i: int|
        #![trigger after[i]]
        0 <= i < before.len() ==> {
            &&& after[i].0 == before[i].0
            &&& before[i].0 != id ==> after[i] == before[i]
            &&& before[i].0 == id ==> {
                &&& after[i].1.position == before[i].1.position
                &&& after[i].1.width == before[i].1.width
                &&& after[i].1.height == before[i].1.height
                &&& before[i].1.front_bitmap is Some
                &&& after[i].1.front_bitmap is Some
                &&& drawn(before[i].1.front_bitmap->0, after[i].1.front_bitmap->0)
            }
        }
}

/// A bitmap that is ready to be drawn on and blitted.
pub open spec fn bitmap_ready(b: Bitmap) -> bool {
    b.wf() && b.translation() == Point::origin_spec()
}

impl WindowManager {
    /// Front to back is last to first.
    pub closed spec fn stack(&self) -> Seq<WindowIdentifier> {
        self.window_stack@
    }

    /// The windows, each with its identifier.
    pub closed spec fn entries(&self) -> Seq<(WindowIdentifier, Window)> {
        self.windows@
    }

    /// Whether a window with that identifier exists.
    pub open spec fn has_window(&self, id: WindowIdentifier) -> bool {
        exists|i: int| 0 <= i < self.entries().len() && #[trigger] self.entries()[i].0 == id
    }

    /// The window with that identifier.
    pub open spec fn window(&self, id: WindowIdentifier) -> Window {
        self.entries()[choose|i: int|
            0 <= i < self.entries().len() && #[trigger] self.entries()[i].0 == id].1
    }

    /// Identifiers are unique and every front bitmap is ready.
    pub open spec fn wf(&self) -> bool {
        &&& self.ids_unique()
        &&& self.stack_unique()
        &&& forall|i: int|
            0 <= i < self.entries().len() ==> (#[trigger] self.entries()[i].1.front_bitmap matches Some(
                b,
            ) ==> bitmap_ready(b))
    }

    /// No two windows share an identifier.
    pub open spec fn ids_unique(&self) -> bool {
        forall|i: int, j: int|
            0 <= i < j < self.entries().len() ==> #[trigger] self.entries()[i].0
                != #[trigger] self.entries()[j].0
    }

    /// No window is on the stack twice.
    pub open spec fn stack_unique(&self) -> bool {
        forall|i: int, j: int|
            0 <= i < j < self.stack().len() ==> #[trigger] self.stack()[i] != #[trigger] self.stack()[j]
    }

    /// Whether the window `id` exists and has a bitmap of its own.
    pub open spec fn has_front_bitmap(&self, id: WindowIdentifier) -> bool {
        self.has_window(id) && self.window(id).front_bitmap is Some
    }

    /// With unique identifiers, the window of `id` is the one stored next to it.
    pub proof fn lemma_window_at(&self, k: int, id: WindowIdentifier)
        requires
            self.ids_unique(),
            0 <= k < self.entries().len(),
            self.entries()[k].0 == id,
        ensures
            self.has_window(id),
            self.window(id) == self.entries()[k].1,
    {
        let c = choose|i: int| 0 <= i < self.entries().len() && #[trigger] self.entries()[i].0 == id;
        if c != k {
            if c < k {
                assert(self.entries()[c].0 != self.entries()[k].0);
            } else {
                assert(self.entries()[k].0 != self.entries()[c].0);
            }
        }
    }

    /// Taking the bitmap of window `id` out, drawing `drawn` on it and giving it back
    /// redraws that window, for any relation `drawn_as` that every bitmap holding the
    /// drawing bears to the bitmap taken.
    pub proof fn lemma_redrawn(
        &self,
        taken: Seq<(WindowIdentifier, Window)>,
        after: Seq<(WindowIdentifier, Window)>,
        id: WindowIdentifier,
        drawn: Bitmap,
        drawn_as: spec_fn(Bitmap, Bitmap) -> bool,
    )
        requires
            self.wf(),
            self.has_front_bitmap(id),
            front_bitmap_set(self.entries(), taken, id, None),
            drawing_returned(taken, after, id, drawn),
            forall|nb: Bitmap| #[trigger] holds_drawing(nb, drawn) ==> drawn_as(self.window(id).front_bitmap->0, nb),
        ensures
            bitmap_redrawn(self.entries(), after, id, drawn_as),
    {
        assert forall|i: int| 0 <= i < self.entries().len() implies {
            &&& after[i].0 == self.entries()[i].0
            &&& self.entries()[i].0 != id ==> after[i] == self.entries()[i]
            &&& self.entries()[i].0 == id ==> {
                &&& after[i].1.position == self.entries()[i].1.position
                &&& after[i].1.width == self.entries()[i].1.width
                &&& after[i].1.height == self.entries()[i].1.height
                &&& self.entries()[i].1.front_bitmap is Some
                &&& after[i].1.front_bitmap is Some
                &&& drawn_as(self.entries()[i].1.front_bitmap->0, after[i].1.front_bitmap->0)
            }
        } by {
            assert(taken[i] == if self.entries()[i].0 == id {
                (id, with_front_bitmap(self.entries()[i].1, None))
            } else {
                self.entries()[i]
            });
            if self.entries()[i].0 == id {
                self.lemma_window_at(i, id);
                assert(holds_drawing(after[i].1.front_bitmap->0, drawn));
            }
        }
    }

    pub fn new() -> (r: Self)
        ensures
            r.wf(),
            r.stack() == Seq::<WindowIdentifier>::empty(),
            r.entries() == Seq::<(WindowIdentifier, Window)>::empty(),
    {
        Self { window_stack: Vec::new(), windows: Vec::new() }
    }

    fn find(&self, identifier: WindowIdentifier) -> (r: Option<usize>)
        ensures
            r matches Some(i) ==> i < self.entries().len() && self.entries()[i as int].0
                == identifier,
            r is None ==> !self.has_window(identifier),
    {
        let mut i: usize = 0;
        while i < self.windows.len()
            invariant
                0 <= i <= self.windows@.len(),
                forall|j: int| 0 <= j < i ==> self.windows@[j].0 != identifier,
            decreases self.windows@.len() - i,
        {
            if self.windows[i].0 == identifier {
                return Some(i);
            }
            i = i + 1;
        }
        None
    }

    /// Creates (or replaces) the window `identifier`: -32768 for a coordinate means 0, for
    /// the width 400 and for the height 300. It gets a bitmap of its own unless it draws
    /// on its parent's. Returns the width and height.
    #[verifier::spinoff_prover]
    pub fn create_window(
        &mut self,
        identifier: WindowIdentifier,
        x: i16,
        y: i16,
        width: i16,
        height: i16,
        use_parent_bitmap: bool,
    ) -> (r: (i16, i16))
        requires
            old(self).wf(),
        ensures
            final(self).wf(),
            r == (number_or_default(width, 400), number_or_default(height, 300)),
            window_placed(*old(self), *final(self), identifier, x, y, width, height, use_parent_bitmap),
    {
        // set sane limits for arguments?
        let width = if width == -32768 {
            400
        } else {
            width
        };
        let height = if height == -32768 {
            300
        } else {
            height
        };
        let window = Window {
            position: Point {
                x: if x == -32768 {
                    0
                } else {
                    x
                },
                y: if y == -32768 {
                    0
                } else {
                    y
                },
            },
            width,
            height,
            front_bitmap: if use_parent_bitmap {
                None
            } else {
                Some(Bitmap::new(width, height))
            },
        };
        let ghost new_entry = (identifier, window);
        match self.find(identifier) {
            Some(i) => {
                self.windows.set(i, (identifier, window));
                proof {
                    assert(self.entries()[i as int].0 == identifier);
                    assert forall|a: int, b: int|
                        0 <= a < b < self.entries().len() implies #[trigger] self.entries()[a].0
                        != #[trigger] self.entries()[b].0 by {
                        assert(old(self).entries()[a].0 != old(self).entries()[b].0);
                    }
                    self.lemma_window_at(i as int, identifier);
                    assert forall|id: WindowIdentifier| id != identifier implies #[trigger] self.has_window(id)
                        == old(self).has_window(id) && (old(self).has_window(id) ==> self.window(id)
                        == old(self).window(id)) by {
                        if old(self).has_window(id) {
                            let k = choose|k: int|
                                0 <= k < old(self).entries().len() && #[trigger] old(self).entries()[k].0 == id;
                            assert(self.entries()[k].0 == id);
                        }
                        if self.has_window(id) {
                            let k = choose|k: int|
                                0 <= k < self.entries().len() && #[trigger] self.entries()[k].0 == id;
                            assert(old(self).entries()[k].0 == id);
                        }
                    }
                }
            },
            None => {
                self.windows.push((identifier, window));
                proof {
                    let n = old(self).entries().len() as int;
                    assert(self.entries()[n].0 == identifier);
                    assert forall|a: int, b: int|
                        0 <= a < b < self.entries().len() implies #[trigger] self.entries()[a].0
                        != #[trigger] self.entries()[b].0 by {
                        if b < n {
                            assert(old(self).entries()[a].0 != old(self).entries()[b].0);
                        } else if old(self).entries()[a].0 == identifier {
                            assert(old(self).has_window(identifier));
                        }
                    }
                    self.lemma_window_at(n, identifier);
                    assert forall|id: WindowIdentifier| id != identifier implies #[trigger] self.has_window(id)
                        == old(self).has_window(id) && (old(self).has_window(id) ==> self.window(id)
                        == old(self).window(id)) by {
                        if old(self).has_window(id) {
                            let k = choose|k: int|
                                0 <= k < old(self).entries().len() && #[trigger] old(self).entries()[k].0 == id;
                            assert(self.entries()[k].0 == id);
                        }
                        if self.has_window(id) {
                            let k = choose|k: int|
                                0 <= k < self.entries().len() && #[trigger] self.entries()[k].0 == id;
                            assert(k != n);
                            assert(old(self).entries()[k].0 == id);
                        }
                    }
                }
            },
        }
        proof {
            lemma_stack_kept(*old(self), *self);
        }
        (width, height)
    }

    /// Brings the window `identifier` to the front: it leaves its place in the stack, if it
    /// had one, and goes on top.
    pub fn show_window(&mut self, identifier: WindowIdentifier)
        requires
            old(self).wf(),
        ensures
            final(self).wf(),
            final(self).entries() == old(self).entries(),
            brought_to_front(old(self).stack(), final(self).stack(), identifier),
    {
        let mut index: usize = 0;
        let mut found = false;
        while index < self.window_stack.len()
            invariant
                self.window_stack@ == old(self).window_stack@,
                0 <= index <= self.window_stack@.len(),
                forall|i: int| 0 <= i < index ==> self.window_stack@[i] != identifier,
                found ==> index < self.window_stack@.len() && self.window_stack@[index as int]
                    == identifier,
            ensures
                self.window_stack@ == old(self).window_stack@,
                forall|i: int| 0 <= i < index ==> self.window_stack@[i] != identifier,
                found ==> index < self.window_stack@.len() && self.window_stack@[index as int]
                    == identifier,
                !found ==> index == self.window_stack@.len(),
            decreases self.window_stack@.len() - index + (if found {
                0int
            } else {
                1
            }),
        {
            if self.window_stack[index] == identifier {
                found = true;
                break;
            }
            index = index + 1;
        }
        if found {
            self.window_stack.remove(index);
        }
        let ghost kept = self.window_stack@;
        proof {
            if found {
                assert(kept =~= old(self).stack().remove(index as int));
            }
            assert forall|i: int| 0 <= i < kept.len() implies kept[i] != identifier by {
                if found {
                    if i < index {
                        assert(kept[i] == old(self).stack()[i]);
                    } else {
                        assert(kept[i] == old(self).stack()[i + 1]);
                    }
                }
            }
            assert forall|i: int, j: int| 0 <= i < j < kept.len() implies kept[i] != kept[j] by {
                if found {
                    let oi = if i < index { i } else { i + 1 };
                    let oj = if j < index { j } else { j + 1 };
                    assert(kept[i] == old(self).stack()[oi]);
                    assert(kept[j] == old(self).stack()[oj]);
                }
            }
        }
        self.window_stack.push(identifier);
        proof {
            assert forall|i: int, j: int| 0 <= i < j < self.stack().len() implies self.stack()[i] != self.stack()[j] by {
                if j == kept.len() {
                    assert(self.stack()[i] == kept[i]);
                } else {
                    assert(self.stack()[i] == kept[i] && self.stack()[j] == kept[j]);
                }
            }
            assert forall|k: int|
                0 <= k < old(self).stack().len() && old(self).stack()[k] == identifier && (forall|
                    i: int,
                |
                    0 <= i < k ==> old(self).stack()[i] != identifier) implies self.stack()
                == old(self).stack().remove(k).push(identifier) by {
                if index < k {
                    assert(old(self).stack()[index as int] != identifier);
                }
            }
        }
    }

    /// The windows to blit, back to front: the stacked windows that exist and have a
    /// bitmap of their own.
    pub fn paint(&self) -> (r: Vec<WindowIdentifier>)
        requires
            self.wf(),
        ensures
            r@ == self.stack().filter(|id: WindowIdentifier| self.has_front_bitmap(id)),
    {
        let mut out: Vec<WindowIdentifier> = Vec::new();
        let mut i: usize = 0;
        while i < self.window_stack.len()
            invariant
                0 <= i <= self.window_stack@.len(),
                self.wf(),
                out@ == self.stack().subrange(0, i as int).filter(
                    |id: WindowIdentifier| self.has_front_bitmap(id),
                ),
            decreases self.window_stack@.len() - i,
        {
            let identifier = self.window_stack[i];
            let has_bitmap = match self.find(identifier) {
                Some(k) => {
                    proof {
                        self.lemma_window_at(k as int, identifier);
                    }
                    self.windows[k].1.front_bitmap.is_some()
                },
                None => false,
            };
            proof {
                reveal(Seq::filter);
                assert(self.stack().subrange(0, i + 1).drop_last() =~= self.stack().subrange(
                    0,
                    i as int,
                ));
            }
            if has_bitmap {
                out.push(identifier);
            }
            i = i + 1;
        }
        assert(self.stack().subrange(0, self.stack().len() as int) =~= self.stack());
        out
    }

    /// The bitmap of the window `identifier`, for blitting.
    pub fn front_bitmap_of(&self, identifier: WindowIdentifier) -> (r: Option<&Bitmap>)
        requires
            self.wf(),
        ensures
            r matches Some(b) ==> self.has_window(identifier) && self.window(
                identifier,
            ).front_bitmap == Some(*b),
            r is None ==> !self.has_front_bitmap(identifier),
    {
        match self.find(identifier) {
            Some(k) => {
                proof {
                    self.lemma_window_at(k as int, identifier);
                }
                match &self.windows[k].1.front_bitmap {
                    Some(b) => Some(b),
                    None => None,
                }
            },
            None => None,
        }
    }

    /// Takes the bitmap of the window `identifier` out for drawing; it must come back
    /// through `return_paint_bitmap`.
    pub fn paint_bitmap_for(&mut self, identifier: WindowIdentifier) -> (r: Option<Bitmap>)
        requires
            old(self).wf(),
        ensures
            final(self).wf(),
            final(self).stack() == old(self).stack(),
            final(self).entries().len() == old(self).entries().len(),
            r is None ==> !old(self).has_front_bitmap(identifier) && final(self).entries() == old(self).entries(),
            r matches Some(b) ==> bitmap_ready(b) && old(self).has_window(identifier) && old(self).window(identifier).front_bitmap == Some(b),
            r is Some ==> front_bitmap_set(old(self).entries(), final(self).entries(), identifier, None),
            forall|i: int|
                0 <= i < final(self).entries().len() ==> #[trigger] final(self).entries()[i].0 == old(self).entries()[i].0,
    {
        match self.find(identifier) {
            Some(k) => {
                let (id, mut window) = self.windows.remove(k);
                let taken = window.front_bitmap.take();
                self.windows.insert(k, (id, window));
                proof {
                    old(self).lemma_window_at(k as int, identifier);
                    assert forall|i: int| 0 <= i < old(self).entries().len() implies #[trigger] self.entries()[i]
                        == if old(self).entries()[i].0 == identifier {
                        (identifier, with_front_bitmap(old(self).entries()[i].1, None))
                    } else {
                        old(self).entries()[i]
                    } by {
                        if i != k {
                            if i < k {
                                assert(old(self).entries()[i].0 != old(self).entries()[k as int].0);
                            } else {
                                assert(old(self).entries()[k as int].0 != old(self).entries()[i].0);
                            }
                        }
                    }
                    assert forall|i: int, j: int|
                        0 <= i < j < self.entries().len() implies #[trigger] self.entries()[i].0
                        != #[trigger] self.entries()[j].0 by {
                        assert(self.entries()[i].0 == old(self).entries()[i].0);
                        assert(self.entries()[j].0 == old(self).entries()[j].0);
                    }
                    if taken is None {
                        assert(self.entries() =~= old(self).entries());
                    }
                }
                proof {
                    lemma_stack_kept(*old(self), *self);
                }
                taken
            },
            None => None,
        }
    }

    /// Puts a bitmap back as the bitmap of the window `identifier`; nothing when there is
    /// no such window.
    pub fn return_paint_bitmap(&mut self, identifier: WindowIdentifier, bitmap: Bitmap)
        requires
            old(self).wf(),
            bitmap_ready(bitmap),
        ensures
            final(self).wf(),
            final(self).stack() == old(self).stack(),
            final(self).entries().len() == old(self).entries().len(),
            forall|i: int|
                0 <= i < final(self).entries().len() ==> #[trigger] final(self).entries()[i].0 == old(self).entries()[i].0,
            front_bitmap_set(old(self).entries(), final(self).entries(), identifier, Some(bitmap)),
    {
        match self.find(identifier) {
            Some(k) => {
                let (id, mut window) = self.windows.remove(k);
                window.front_bitmap = Some(bitmap);
                self.windows.insert(k, (id, window));
                proof {
                    assert forall|i: int| 0 <= i < old(self).entries().len() implies #[trigger] self.entries()[i]
                        == if old(self).entries()[i].0 == identifier {
                        (identifier, with_front_bitmap(old(self).entries()[i].1, Some(bitmap)))
                    } else {
                        old(self).entries()[i]
                    } by {
                        if i != k {
                            if i < k {
                                assert(old(self).entries()[i].0 != old(self).entries()[k as int].0);
                            } else {
                                assert(old(self).entries()[k as int].0 != old(self).entries()[i].0);
                            }
                        }
                    }
                    assert forall|i: int, j: int|
                        0 <= i < j < self.entries().len() implies #[trigger] self.entries()[i].0
                        != #[trigger] self.entries()[j].0 by {
                        assert(self.entries()[i].0 == old(self).entries()[i].0);
                        assert(self.entries()[j].0 == old(self).entries()[j].0);
                    }
                    lemma_stack_kept(*old(self), *self);
                }
            },
            None => {
                proof {
                    assert forall|i: int| 0 <= i < old(self).entries().len() implies #[trigger] self.entries()[i]
                        == if old(self).entries()[i].0 == identifier {
                        (identifier, with_front_bitmap(old(self).entries()[i].1, Some(bitmap)))
                    } else {
                        old(self).entries()[i]
                    } by {
                        if old(self).entries()[i].0 == identifier {
                            assert(old(self).has_window(identifier));
                        }
                    }
                    lemma_stack_kept(*old(self), *self);
                }
            },
        }
    }

    /// Takes out the bitmap that the device context draws on, its origin moved by the
    /// context's translation.
    pub fn paint_bitmap_for_dc(&mut self, dc: &DeviceContext) -> (r: Option<BitmapView>)
        requires
            old(self).wf(),
        ensures
            final(self).wf(),
            final(self).stack() == old(self).stack(),
            final(self).entries().len() == old(self).entries().len(),
            r is None ==> final(self).entries() == old(self).entries() && !old(self).has_front_bitmap(
                dc.bitmap_window_identifier,
            ),
            r matches Some(v) ==> v.bitmap().wf() && v.translation() == dc.translation
                && v.bitmap().translation() == dc.translation,
            r matches Some(v) ==> old(self).has_front_bitmap(dc.bitmap_window_identifier) && v.lends(
                old(self).window(dc.bitmap_window_identifier).front_bitmap->0,
                dc.translation,
            ),
            r is Some ==> front_bitmap_set(
                old(self).entries(),
                final(self).entries(),
                dc.bitmap_window_identifier,
                None,
            ),
            forall|i: int|
                0 <= i < final(self).entries().len() ==> #[trigger] final(self).entries()[i].0 == old(self).entries()[i].0,
    {
        match self.paint_bitmap_for(dc.bitmap_window_identifier) {
            Some(bitmap) => Some(BitmapView::new(bitmap, dc.translation)),
            None => None,
        }
    }

    pub fn position_of(&self, identifier: WindowIdentifier) -> (r: Option<Point>)
        requires
            self.wf(),
        ensures
            self.has_window(identifier) ==> r == Some(self.window(identifier).position),
            !self.has_window(identifier) ==> r is None,
    {
        match self.find(identifier) {
            Some(k) => {
                proof {
                    self.lemma_window_at(k as int, identifier);
                }
                Some(self.windows[k].1.position)
            },
            None => None,
        }
    }

    /// The client area: from the origin to the window's width and height.
    pub fn client_rect_of(&self, identifier: WindowIdentifier) -> (r: Option<Rect>)
        requires
            self.wf(),
        ensures
            self.has_window(identifier) ==> r == Some(
                (Rect {
                    left: 0,
                    top: 0,
                    right: self.window(identifier).width,
                    bottom: self.window(identifier).height,
                }),
            ),
            !self.has_window(identifier) ==> r is None,
    {
        match self.find(identifier) {
            Some(k) => {
                proof {
                    self.lemma_window_at(k as int, identifier);
                }
                Some(
                    Rect {
                        top: 0,
                        left: 0,
                        right: self.windows[k].1.width,
                        bottom: self.windows[k].1.height,
                    },
                )
            },
            None => None,
        }
    }

    /// The window rectangle: its position, and its width and height as right and bottom.
    pub fn window_rect_of(&self, identifier: WindowIdentifier) -> (r: Option<Rect>)
        requires
            self.wf(),
        ensures
            self.has_window(identifier) ==> r == Some(
                (Rect {
                    left: self.window(identifier).position.x,
                    top: self.window(identifier).position.y,
                    right: self.window(identifier).width,
                    bottom: self.window(identifier).height,
                }),
            ),
            !self.has_window(identifier) ==> r is None,
    {
        // what about nested windows?
        match self.find(identifier) {
            Some(k) => {
                proof {
                    self.lemma_window_at(k as int, identifier);
                }
                Some(
                Rect {
                    top: self.windows[k].1.position.y,
                    left: self.windows[k].1.position.x,
                    right: self.windows[k].1.width,
                    bottom: self.windows[k].1.height,
                },
            )
            },
            None => None,
        }
    }
}

} // verus!
