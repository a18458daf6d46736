//! The keyed store of live markers.
//!
//! Each marker is identified by its namespace and its id; the store holds at
//! most one entry per such key. Every stored entry carries the generation it
//! was stored under, so that a deferred expiry removes only the version it
//! was scheduled for, never a later refresh of the same key.
use vstd::prelude::*;
use crate::shape::Segment;

verus! {

/// One live marker, as the cache holds it.
pub struct TermvizMarker<P> {
    pub lines: Vec<Segment<P>>,
    pub id: i32,
    pub ns: String,
    pub generation: u64,
}

/// What a stored marker is: its key, its segments and its generation.
pub struct MarkerView<P> {
    pub ns: Seq<char>,
    pub id: i32,
    pub lines: Seq<Segment<P>>,
    pub generation: u64,
}

impl<P> View for TermvizMarker<P> {
    type V = MarkerView<P>;

    open spec fn view(&self) -> MarkerView<P> {
        MarkerView { ns: self.ns@, id: self.id, lines: self.lines@, generation: self.generation }
    }
}

/// What a cache is: its entries in their stable order, and the generation
/// that the next stored marker will get.
pub struct CacheModel<P> {
    pub markers: Seq<MarkerView<P>>,
    pub next_generation: u64,
}

/// Entry `i` of `m` is stored under the key (`ns`, `id`).
pub open spec fn has_key<P>(m: Seq<MarkerView<P>>, i: int, ns: Seq<char>, id: i32) -> bool {
    0 <= i < m.len() && m[i].ns == ns && m[i].id == id
}

/// No two entries share a key.
pub open spec fn unique_keys<P>(m: Seq<MarkerView<P>>) -> bool {
    forall|i: int, j: int|
        #![trigger m[i], m[j]]
        0 <= i < m.len() && 0 <= j < m.len() && m[i].ns == m[j].ns && m[i].id == m[j].id ==> i
            == j
}

/// The position of the entry stored under (`ns`, `id`), or -1 where there is none.
pub open spec fn key_index<P>(m: Seq<MarkerView<P>>, ns: Seq<char>, id: i32) -> int {
    if exists|i: int| has_key(m, i, ns, id) {
        choose|i: int| has_key(m, i, ns, id)
    } else {
        -1
    }
}

/// The segments stored under (`ns`, `id`), if any.
pub open spec fn lookup<P>(m: Seq<MarkerView<P>>, ns: Seq<char>, id: i32) -> Option<
    Seq<Segment<P>>,
> {
    let i = key_index(m, ns, id);
    if i >= 0 {
        Some(m[i].lines)
    } else {
        None
    }
}

/// Inserts, or replaces in place, the entry for (`ns`, `id`).
pub open spec fn upsert_spec<P>(
    m: Seq<MarkerView<P>>,
    ns: Seq<char>,
    id: i32,
    lines: Seq<Segment<P>>,
    generation: u64,
) -> Seq<MarkerView<P>> {
    let e = MarkerView { ns, id, lines, generation };
    let i = key_index(m, ns, id);
    if i >= 0 {
        m.update(i, e)
    } else {
        m.push(e)
    }
}

/// Removes the entry for (`ns`, `id`); no change where there is none.
pub open spec fn delete_spec<P>(m: Seq<MarkerView<P>>, ns: Seq<char>, id: i32) -> Seq<
    MarkerView<P>,
> {
    let i = key_index(m, ns, id);
    if i >= 0 {
        m.remove(i)
    } else {
        m
    }
}

/// Removes the entry for (`ns`, `id`) only where it was stored under `generation`.
pub open spec fn expire_spec<P>(
    m: Seq<MarkerView<P>>,
    ns: Seq<char>,
    id: i32,
    generation: u64,
) -> Seq<MarkerView<P>> {
    let i = key_index(m, ns, id);
    if i >= 0 && m[i].generation == generation {
        m.remove(i)
    } else {
        m
    }
}

/// The segments of every entry, entry after entry.
pub open spec fn lines_of<P>(m: Seq<MarkerView<P>>) -> Seq<Segment<P>>
    decreases m.len(),
{
    if m.len() == 0 {
        Seq::empty()
    } else {
        lines_of(m.drop_last()) + m.last().lines
    }
}

/// The generation after `g`, wrapping around at the top of the range.
pub open spec fn next_gen(g: u64) -> u64 {
    if g == u64::MAX {
        0
    } else {
        (g + 1) as u64
    }
}

/// Under unique keys, `key_index` finds the one entry with the key, or reports none.
pub proof fn lemma_key_index<P>(m: Seq<MarkerView<P>>, ns: Seq<char>, id: i32)
    requires
        unique_keys(m),
    ensures
        key_index(m, ns, id) == -1 <==> (forall|i: int| !has_key(m, i, ns, id)),
        key_index(m, ns, id) >= 0 ==> has_key(m, key_index(m, ns, id), ns, id),
        forall|i: int| has_key(m, i, ns, id) ==> i == key_index(m, ns, id),
{
    if exists|i: int| has_key(m, i, ns, id) {
        let k = choose|i: int| has_key(m, i, ns, id);
        assert(has_key(m, k, ns, id));
        assert forall|i: int| has_key(m, i, ns, id) implies i == k by {
            assert(m[i].ns == m[k].ns && m[i].id == m[k].id);
        }
    }
}

/// Storing, removing and expiring keep keys unique.
pub proof fn lemma_unique_preserved<P>(
    m: Seq<MarkerView<P>>,
    ns: Seq<char>,
    id: i32,
    lines: Seq<Segment<P>>,
    generation: u64,
)
    requires
        unique_keys(m),
    ensures
        unique_keys(upsert_spec(m, ns, id, lines, generation)),
        unique_keys(delete_spec(m, ns, id)),
        unique_keys(expire_spec(m, ns, id, generation)),
{
    lemma_key_index(m, ns, id);
    let k = key_index(m, ns, id);
    let u = upsert_spec(m, ns, id, lines, generation);
    assert forall|i: int, j: int|
        #![trigger u[i], u[j]]
        0 <= i < u.len() && 0 <= j < u.len() && u[i].ns == u[j].ns && u[i].id == u[j].id implies i
        == j by {
        if k < 0 {
            if i == m.len() as int {
                assert(has_key(m, j, ns, id) || j == i);
            } else if j == m.len() as int {
                assert(has_key(m, i, ns, id));
            } else {
                assert(m[i] == u[i] && m[j] == u[j]);
            }
        } else {
            if i == k {
                assert(has_key(m, j, ns, id) || j == k);
            } else if j == k {
                assert(has_key(m, i, ns, id));
            } else {
                assert(m[i] == u[i] && m[j] == u[j]);
            }
        }
    }
    if k >= 0 {
        let d = m.remove(k);
        assert forall|i: int, j: int|
            #![trigger d[i], d[j]]
            0 <= i < d.len() && 0 <= j < d.len() && d[i].ns == d[j].ns && d[i].id == d[j].id implies i
            == j by {
            let mi = if i < k { i } else { i + 1 };
            let mj = if j < k { j } else { j + 1 };
            assert(d[i] == m[mi] && d[j] == m[mj]);
        }
    }
}

/// Appending one entry's segments extends the concatenation of a prefix.
proof fn lemma_lines_of_prefix<P>(m: Seq<MarkerView<P>>, i: int)
    requires
        0 <= i < m.len(),
    ensures
        lines_of(m.subrange(0, i + 1)) == lines_of(m.subrange(0, i)) + m[i].lines,
{
    assert(m.subrange(0, i + 1).drop_last() =~= m.subrange(0, i));
}

/// Looking a key up after storing: the stored segments for that key, the
/// earlier answer for every other key.
pub proof fn lemma_lookup_upsert<P>(
    m: Seq<MarkerView<P>>,
    ns: Seq<char>,
    id: i32,
    lines: Seq<Segment<P>>,
    generation: u64,
    ns2: Seq<char>,
    id2: i32,
)
    requires
        unique_keys(m),
    ensures
        lookup(upsert_spec(m, ns, id, lines, generation), ns2, id2) == if ns2 == ns && id2 == id {
            Some(lines)
        } else {
            lookup(m, ns2, id2)
        },
{
    let u = upsert_spec(m, ns, id, lines, generation);
    lemma_unique_preserved(m, ns, id, lines, generation);
    lemma_key_index(m, ns, id);
    lemma_key_index(m, ns2, id2);
    lemma_key_index(u, ns2, id2);
    let k = key_index(m, ns, id);
    let k2 = key_index(m, ns2, id2);
    if ns2 == ns && id2 == id {
        let at = if k >= 0 { k } else { m.len() as int };
        assert(has_key(u, at, ns2, id2));
    } else {
        if k2 >= 0 {
            assert(k2 != k);
            assert(u[k2] == m[k2]);
            assert(has_key(u, k2, ns2, id2));
        } else {
            assert forall|i: int| !has_key(u, i, ns2, id2) by {
                if 0 <= i < m.len() && i != k {
                    assert(u[i] == m[i]);
                    assert(!has_key(m, i, ns2, id2));
                }
            }
        }
    }
}

/// Looking a key up after removing one: none for that key, the earlier
/// answer for every other key.
pub proof fn lemma_lookup_delete<P>(m: Seq<MarkerView<P>>, ns: Seq<char>, id: i32, ns2: Seq<char>, id2: i32)
    requires
        unique_keys(m),
    ensures
        lookup(delete_spec(m, ns, id), ns2, id2) == if ns2 == ns && id2 == id {
            None
        } else {
            lookup(m, ns2, id2)
        },
{
    let d = delete_spec(m, ns, id);
    lemma_unique_preserved(m, ns, id, Seq::empty(), 0);
    lemma_key_index(m, ns, id);
    lemma_key_index(m, ns2, id2);
    lemma_key_index(d, ns2, id2);
    let k = key_index(m, ns, id);
    let k2 = key_index(m, ns2, id2);
    if k >= 0 {
        if ns2 == ns && id2 == id {
            assert forall|i: int| !has_key(d, i, ns2, id2) by {
                if 0 <= i < d.len() {
                    let mi = if i < k { i } else { i + 1 };
                    assert(d[i] == m[mi]);
                    assert(!has_key(m, mi, ns2, id2) || mi == k);
                }
            }
        } else if k2 >= 0 {
            let di = if k2 < k { k2 } else { k2 - 1 };
            assert(k2 != k);
            assert(d[di] == m[k2]);
            assert(has_key(d, di, ns2, id2));
        } else {
            assert forall|i: int| !has_key(d, i, ns2, id2) by {
                if 0 <= i < d.len() {
                    let mi = if i < k { i } else { i + 1 };
                    assert(d[i] == m[mi]);
                    assert(!has_key(m, mi, ns2, id2));
                }
            }
        }
    }
}

/// An empty cache has nothing to look up.
pub proof fn lemma_lookup_empty<P>(ns: Seq<char>, id: i32)
    ensures
        lookup(Seq::<MarkerView<P>>::empty(), ns, id) is None,
{
    lemma_key_index(Seq::<MarkerView<P>>::empty(), ns, id);
}

/// The store of live markers, keyed by namespace and id.
pub struct TermvizMarkerContainer<P> {
    markers: Vec<TermvizMarker<P>>,
    static_frame: String,
    next_generation: u64,
}

impl<P> View for TermvizMarkerContainer<P> {
    type V = CacheModel<P>;

    closed spec fn view(&self) -> CacheModel<P> {
        CacheModel {
            markers: self.markers@.map_values(|m: TermvizMarker<P>| m@),
            next_generation: self.next_generation,
        }
    }
}

impl<P: Copy> TermvizMarkerContainer<P> {
    /// The frame that every marker is projected into.
    pub closed spec fn frame(&self) -> Seq<char> {
        self.static_frame@
    }

    /// Each key has at most one entry.
    pub open spec fn wf(&self) -> bool {
        unique_keys(self@.markers)
    }

    /// An empty cache for markers projected into `static_frame`.
    pub fn new(static_frame: String) -> (r: TermvizMarkerContainer<P>)
        ensures
            r.wf(),
            r@.markers == Seq::<MarkerView<P>>::empty(),
            r@.next_generation == 0,
            r.frame() == static_frame@,
    {
        let r = TermvizMarkerContainer { markers: Vec::new(), static_frame, next_generation: 0 };
        assert(r@.markers =~= Seq::<MarkerView<P>>::empty());
        r
    }

    /// The frame that every marker is projected into.
    pub fn static_frame(&self) -> (r: &String)
        ensures
            r@ == self.frame(),
    {
        &self.static_frame
    }

    /// The number of stored markers, one per key.
    pub fn len(&self) -> (r: usize)
        ensures
            r == self@.markers.len(),
    {
        self.markers.len()
    }

    /// The position of the entry for (`ns`, `id`), if any.
    fn find(&self, ns: &String, id: i32) -> (r: Option<usize>)
        requires
            self.wf(),
        ensures
            match r {
                Some(i) => i as int == key_index(self@.markers, ns@, id),
                None => key_index(self@.markers, ns@, id) == -1,
            },
    {
        let ghost m = self@.markers;
        let mut i: usize = 0;
        while i < self.markers.len()
            invariant
                i <= self.markers.len(),
                m == self@.markers,
                m.len() == self.markers.len(),
                unique_keys(m),
                forall|j: int| 0 <= j < i ==> !has_key(m, j, ns@, id),
            decreases self.markers.len() - i,
        {
            assert(m[i as int] == self.markers@[i as int]@);
            if self.markers[i].id == id && self.markers[i].ns == *ns {
                assert(has_key(m, i as int, ns@, id));
                proof {
                    lemma_key_index(m, ns@, id);
                }
                return Some(i);
            }
            assert(!has_key(m, i as int, ns@, id));
            i += 1;
        }
        proof {
            lemma_key_index(m, ns@, id);
        }
        None
    }
    /// Stores `lines` under (`ns`, `id`), replacing whatever was stored there,
    /// and returns the generation the new entry was stored under.
    pub fn add_marker(&mut self, ns: String, id: i32, lines: Vec<Segment<P>>) -> (generation: u64)
        requires
            old(self).wf(),
        ensures
            final(self).wf(),
            generation == old(self)@.next_generation,
            final(self)@.markers == upsert_spec(old(self)@.markers, ns@, id, lines@, generation),
            final(self)@.next_generation == next_gen(generation),
            final(self).frame() == old(self).frame(),
    {
        let ghost m = self@.markers;
        let ghost ns_view = ns@;
        let ghost lines_view = lines@;
        let generation = self.next_generation;
        proof {
            lemma_unique_preserved(m, ns@, id, lines@, generation);
        }
        let found = self.find(&ns, id);
        let entry = TermvizMarker { lines, id, ns, generation };
        match found {
            Some(i) => {
                self.markers[i] = entry;
            },
            None => {
                self.markers.push(entry);
            },
        }
        self.next_generation = if generation == u64::MAX {
            0
        } else {
            generation + 1
        };
        assert(self@.markers =~= upsert_spec(m, ns_view, id, lines_view, generation));
        generation
    }

    /// Removes the entry at position `i`.
    fn remove_at(&mut self, i: usize)
        requires
            i < old(self)@.markers.len(),
        ensures
            final(self)@.markers == old(self)@.markers.remove(i as int),
            final(self)@.next_generation == old(self)@.next_generation,
            final(self).frame() == old(self).frame(),
    {
        let ghost m = self@.markers;
        self.markers.remove(i);
        assert(self@.markers =~= m.remove(i as int));
    }

    /// Removes the entry for (`marker_ns`, `marker_id`); an absent key is no error
    /// and changes nothing.
    pub fn delete_marker(&mut self, marker_ns: String, marker_id: i32)
        requires
            old(self).wf(),
        ensures
            final(self).wf(),
            final(self)@.markers == delete_spec(old(self)@.markers, marker_ns@, marker_id),
            final(self)@.next_generation == old(self)@.next_generation,
            final(self).frame() == old(self).frame(),
    {
        proof {
            lemma_unique_preserved(self@.markers, marker_ns@, marker_id, Seq::empty(), 0);
        }
        match self.find(&marker_ns, marker_id) {
            Some(i) => self.remove_at(i),
            None => {},
        }
    }

    /// Removes the entry for (`marker_ns`, `marker_id`) if it is still the one
    /// stored under `generation`. A marker refreshed since, or already gone,
    /// stays as it is.
    pub fn expire(&mut self, marker_ns: String, marker_id: i32, generation: u64)
        requires
            old(self).wf(),
        ensures
            final(self).wf(),
            final(self)@.markers == expire_spec(
                old(self)@.markers,
                marker_ns@,
                marker_id,
                generation,
            ),
            final(self)@.next_generation == old(self)@.next_generation,
            final(self).frame() == old(self).frame(),
    {
        proof {
            lemma_unique_preserved(self@.markers, marker_ns@, marker_id, Seq::empty(), generation);
        }
        match self.find(&marker_ns, marker_id) {
            Some(i) => {
                assert(self@.markers[i as int] == self.markers@[i as int]@);
                if self.markers[i].generation == generation {
                    self.remove_at(i);
                }
            },
            None => {},
        }
    }

    /// Removes every entry.
    pub fn clear(&mut self)
        ensures
            final(self).wf(),
            final(self)@.markers == Seq::<MarkerView<P>>::empty(),
            final(self)@.next_generation == old(self)@.next_generation,
            final(self).frame() == old(self).frame(),
    {
        self.markers.clear();
        assert(self@.markers =~= Seq::<MarkerView<P>>::empty());
    }

    /// The segments of every stored marker, entry after entry.
    pub fn get_lines(&self) -> (r: Vec<Segment<P>>)
        ensures
            r@ == lines_of(self@.markers),
    {
        let ghost m = self@.markers;
        let mut res: Vec<Segment<P>> = Vec::new();
        let mut i: usize = 0;
        while i < self.markers.len()
            invariant
                i <= self.markers.len(),
                m == self@.markers,
                m.len() == self.markers.len(),
                res@ == lines_of(m.subrange(0, i as int)),
            decreases self.markers.len() - i,
        {
            let lines = &self.markers[i].lines;
            assert(m[i as int].lines == lines@);
            let ghost before = res@;
            let mut j: usize = 0;
            while j < lines.len()
                invariant
                    j <= lines.len(),
                    res@ == before + lines@.subrange(0, j as int),
                decreases lines.len() - j,
            {
                res.push(lines[j]);
                j += 1;
                assert(res@ =~= before + lines@.subrange(0, j as int));
            }
            assert(lines@.subrange(0, j as int) =~= lines@);
            proof {
                lemma_lines_of_prefix(m, i as int);
            }
            i += 1;
        }
        assert(m.subrange(0, m.len() as int) =~= m);
        res
    }
}

} // verus!
