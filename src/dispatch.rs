//! How one inbound marker message, or a batch of them, changes the cache.
//!
//! The caller looks up the transform from the marker's frame to the static
//! frame and places the marker's outline with it; a failed lookup is handed
//! over as an absent outline. What to do with the cache, and whether a
//! deferred removal has to be scheduled, is decided here.
use vstd::prelude::*;
use crate::cache::{CacheModel, MarkerView, TermvizMarkerContainer, delete_spec, next_gen, upsert_spec};
use crate::shape::{Rgb, Shape, parse_shape, shape_spec};

verus! {

/// Action codes of the visualization message. The deprecated "modify" shares
/// the code of `ADD`.
pub const ADD: i32 = 0;
pub const DELETE: i32 = 2;
pub const DELETEALL: i32 = 3;

/// What a message asks of the cache.
#[derive(Clone, Copy, PartialEq, Eq, Structural, Debug)]
pub enum Action {
    Add,
    Delete,
    DeleteAll,
    Ignore,
}

pub open spec fn action_spec(code: i32) -> Action {
    if code == ADD {
        Action::Add
    } else if code == DELETE {
        Action::Delete
    } else if code == DELETEALL {
        Action::DeleteAll
    } else {
        Action::Ignore
    }
}

impl Action {
    /// The action of a message's action code; unknown codes are ignored.
    pub fn from_code(code: i32) -> (r: Action)
        ensures
            r == action_spec(code),
    {
        if code == ADD {
            Action::Add
        } else if code == DELETE {
            Action::Delete
        } else if code == DELETEALL {
            Action::DeleteAll
        } else {
            Action::Ignore
        }
    }
}

/// A marker's declared lifetime; zero means that it stays until deleted.
#[derive(Clone, Copy, PartialEq, Eq, Structural, Debug)]
pub struct Lifetime {
    pub sec: i32,
    pub nsec: i32,
}

impl Lifetime {
    pub open spec fn nanos_spec(&self) -> int {
        self.sec as int * 1_000_000_000 + self.nsec as int
    }

    /// The lifetime in nanoseconds.
    pub fn total_nanos(&self) -> (r: i64)
        ensures
            r as int == self.nanos_spec(),
    {
        let s = self.sec as i64;
        proof {
            assert(-2147483648 <= s <= 2147483647);
            assert(-2147483648000000000 <= s * 1_000_000_000 <= 2147483647000000000) by (nonlinear_arith)
                requires
                    -2147483648 <= s <= 2147483647,
            ;
        }
        s * 1_000_000_000 + self.nsec as i64
    }
}

/// One inbound marker.
pub struct MarkerUpdate<P> {
    pub ns: String,
    pub id: i32,
    pub action: i32,
    pub lifetime: Lifetime,
    pub color: Rgb,
    /// The outline placed in the static frame, or `None` where no transform
    /// from the marker's frame at its stamp was found.
    pub placed: Option<Shape<P>>,
}

/// A removal to run once `delay_nanos` have elapsed: the marker stored
/// under (`ns`, `id`) goes, if it is still the version of `generation`.
pub struct Expiry {
    pub ns: String,
    pub id: i32,
    pub generation: u64,
    pub delay_nanos: i64,
}

pub struct ExpiryView {
    pub ns: Seq<char>,
    pub id: i32,
    pub generation: u64,
    pub delay_nanos: int,
}

impl View for Expiry {
    type V = ExpiryView;

    open spec fn view(&self) -> ExpiryView {
        ExpiryView {
            ns: self.ns@,
            id: self.id,
            generation: self.generation,
            delay_nanos: self.delay_nanos as int,
        }
    }
}

/// The cache after one message.
pub open spec fn update_spec<P>(s: CacheModel<P>, u: MarkerUpdate<P>) -> CacheModel<P> {
    match u.placed {
        None => s,
        Some(shape) => match action_spec(u.action) {
            Action::Add => CacheModel {
                markers: upsert_spec(
                    s.markers,
                    u.ns@,
                    u.id,
                    shape_spec(shape, u.color),
                    s.next_generation,
                ),
                next_generation: next_gen(s.next_generation),
            },
            Action::Delete => CacheModel {
                markers: delete_spec(s.markers, u.ns@, u.id),
                next_generation: s.next_generation,
            },
            Action::DeleteAll => CacheModel {
                markers: Seq::<MarkerView<P>>::empty(),
                next_generation: s.next_generation,
            },
            Action::Ignore => s,
        },
    }
}

/// The removal that one message schedules: only a stored marker with a
/// non-zero lifetime has one.
pub open spec fn expiry_spec<P>(s: CacheModel<P>, u: MarkerUpdate<P>) -> Option<ExpiryView> {
    if u.placed is Some && action_spec(u.action) == Action::Add && u.lifetime.nanos_spec() != 0 {
        Some(
            ExpiryView {
                ns: u.ns@,
                id: u.id,
                generation: s.next_generation,
                delay_nanos: u.lifetime.nanos_spec(),
            },
        )
    } else {
        None
    }
}

/// The cache after the messages of `us`, in order.
pub open spec fn updates_spec<P>(s: CacheModel<P>, us: Seq<MarkerUpdate<P>>) -> CacheModel<P>
    decreases us.len(),
{
    if us.len() == 0 {
        s
    } else {
        update_spec(updates_spec(s, us.drop_last()), us.last())
    }
}

/// The removals that the messages of `us` schedule, in order.
pub open spec fn expiries_spec<P>(s: CacheModel<P>, us: Seq<MarkerUpdate<P>>) -> Seq<ExpiryView>
    decreases us.len(),
{
    if us.len() == 0 {
        Seq::empty()
    } else {
        let before = updates_spec(s, us.drop_last());
        expiries_spec(s, us.drop_last()) + match expiry_spec(before, us.last()) {
            Some(e) => seq![e],
            None => Seq::empty(),
        }
    }
}

impl<P: Copy> TermvizMarkerContainer<P> {
    /// Applies one message: a marker without a transform is dropped; otherwise
    /// it is stored, deleted, clears the cache or is ignored, by its action.
    /// A stored marker with a non-zero lifetime comes back with its removal.
    pub fn handle_marker(&mut self, update: &MarkerUpdate<P>) -> (r: Option<Expiry>)
        requires
            old(self).wf(),
        ensures
            final(self).wf(),
            final(self)@ == update_spec(old(self)@, *update),
            final(self).frame() == old(self).frame(),
            match r {
                Some(e) => expiry_spec(old(self)@, *update) == Some(e@),
                None => expiry_spec(old(self)@, *update) is None,
            },
    {
        match &update.placed {
            None => None,
            Some(shape) => {
                match Action::from_code(update.action) {
                    Action::Add => {
                        let lines = parse_shape(shape, update.color);
                        let generation = self.add_marker(update.ns.clone(), update.id, lines);
                        let nanos = update.lifetime.total_nanos();
                        if nanos != 0 {
                            Some(
                                Expiry {
                                    ns: update.ns.clone(),
                                    id: update.id,
                                    generation,
                                    delay_nanos: nanos,
                                },
                            )
                        } else {
                            None
                        }
                    },
                    Action::Delete => {
                        self.delete_marker(update.ns.clone(), update.id);
                        None
                    },
                    Action::DeleteAll => {
                        self.clear();
                        None
                    },
                    Action::Ignore => None,
                }
            },
        }
    }

    /// Applies the messages of a batch in order, each on its own: one that is
    /// dropped or ignored does not stop the ones after it. Returns the
    /// removals they schedule, in order.
    pub fn handle_marker_array(&mut self, updates: &Vec<MarkerUpdate<P>>) -> (r: Vec<Expiry>)
        requires
            old(self).wf(),
        ensures
            final(self).wf(),
            final(self)@ == updates_spec(old(self)@, updates@),
            final(self).frame() == old(self).frame(),
            r@.map_values(|e: Expiry| e@) == expiries_spec(old(self)@, updates@),
    {
        let ghost s0 = self@;
        let mut res: Vec<Expiry> = Vec::new();
        let mut i: usize = 0;
        while i < updates.len()
            invariant
                i <= updates.len(),
                self.wf(),
                self.frame() == old(self).frame(),
                s0 == old(self)@,
                self@ == updates_spec(s0, updates@.subrange(0, i as int)),
                res@.map_values(|e: Expiry| e@) == expiries_spec(s0, updates@.subrange(0, i as int)),
            decreases updates.len() - i,
        {
            let ghost prefix = updates@.subrange(0, i + 1);
            assert(prefix.drop_last() =~= updates@.subrange(0, i as int));
            let ghost before = res@.map_values(|e: Expiry| e@);
            match self.handle_marker(&updates[i]) {
                Some(e) => {
                    res.push(e);
                    assert(res@.map_values(|e: Expiry| e@) =~= before + seq![e@]);
                },
                None => {
                    assert(res@.map_values(|e: Expiry| e@) =~= before + Seq::<ExpiryView>::empty());
                },
            }
            i += 1;
        }
        assert(updates@.subrange(0, updates.len() as int) =~= updates@);
        res
    }
}

} // verus!
