use vstd::prelude::*;

verus! {

/// How many wall points one section of the cave adds: the inner and outer
/// points above the path and the inner and outer points below it.
pub const SECTION_POINTS: usize = 4;

/// How many wall points the cave keeps: the two newest sections, which the
/// newest piece of cave wall is built from.
pub const KEPT_POINTS: usize = 8;

/// The wall points of the cave, oldest first, in sections of four points
/// (inner upper, inner lower, outer upper, outer lower).
pub struct VertsResource<T> {
    verts: Vec<T>,
}

/// `s` with its oldest section dropped once it holds more than the kept
/// number of points.
pub open spec fn trimmed<T>(s: Seq<T>) -> Seq<T> {
    if s.len() > KEPT_POINTS {
        s.skip(SECTION_POINTS as int)
    } else {
        s
    }
}

/// The points of one section, in the order in which they are stored.
pub open spec fn section<T>(high: T, low: T, higher: T, lower: T) -> Seq<T> {
    seq![high, low, higher, lower]
}

impl<T> View for VertsResource<T> {
    type V = Seq<T>;

    closed spec fn view(&self) -> Seq<T> {
        self.verts@
    }
}

impl<T> VertsResource<T> {
    /// The buffer holds whole sections and no more than the kept points.
    pub open spec fn wf(&self) -> bool {
        &&& self@.len() <= KEPT_POINTS
        &&& self@.len() % (SECTION_POINTS as nat) == 0
    }

    /// An empty buffer.
    pub fn new() -> (r: Self)
        ensures
            r@ == Seq::<T>::empty(),
            r.wf(),
    {
        VertsResource { verts: Vec::new() }
    }

    /// Adds a section of four wall points, then drops the oldest section if
    /// more than the kept number of points are stored.
    pub fn push_section(&mut self, high: T, low: T, higher: T, lower: T)
        requires
            old(self)@.len() + SECTION_POINTS <= usize::MAX,
        ensures
            final(self)@ == trimmed(old(self)@ + section(high, low, higher, lower)),
    {
        let ghost added = self.verts@ + section(high, low, higher, lower);
        self.verts.push(high);
        self.verts.push(low);
        self.verts.push(higher);
        self.verts.push(lower);
        assert(self.verts@ =~= added);
        if self.verts.len() > KEPT_POINTS {
            let mut k: usize = 0;
            while k < SECTION_POINTS
                invariant
                    0 <= k <= SECTION_POINTS,
                    added.len() > KEPT_POINTS,
                    self.verts@ =~= added.skip(k as int),
                decreases SECTION_POINTS - k,
            {
                self.verts.remove(0);
                k = k + 1;
            }
        }
    }

    /// The stored points, oldest first.
    pub fn as_slice(&self) -> (s: &[T])
        ensures
            s@ == self@,
    {
        self.verts.as_slice()
    }

    /// The number of stored points.
    pub fn len(&self) -> (n: usize)
        ensures
            n == self@.len(),
    {
        self.verts.len()
    }
}

/// Adding a section keeps the buffer to whole sections and at most the kept
/// number of points.
pub proof fn lemma_push_keeps_wf<T>(before: Seq<T>, high: T, low: T, higher: T, lower: T)
    requires
        before.len() <= KEPT_POINTS,
        before.len() % (SECTION_POINTS as nat) == 0,
    ensures
        ({
            let after = trimmed(before + section(high, low, higher, lower));
            &&& after.len() <= KEPT_POINTS
            &&& after.len() % (SECTION_POINTS as nat) == 0
            &&& after.len() >= SECTION_POINTS
            &&& after.subrange(after.len() - SECTION_POINTS, after.len() as int) == section(high, low, higher, lower)
        }),
{
    let added = before + section(high, low, higher, lower);
    assert(added.subrange(added.len() - 4, added.len() as int) =~= section(high, low, higher, lower));
    if added.len() > KEPT_POINTS {
        let after = added.skip(4);
        assert(after.subrange(after.len() - 4, after.len() as int) =~= section(high, low, higher, lower));
    }
}

/// From a buffer of whole sections, two added sections are exactly what the
/// buffer holds afterwards: older points are gone.
pub proof fn lemma_two_sections_fill_buffer<T>(before: Seq<T>, a: (T, T, T, T), b: (T, T, T, T))
    requires
        before.len() <= KEPT_POINTS,
        before.len() % (SECTION_POINTS as nat) == 0,
    ensures
        trimmed(trimmed(before + section(a.0, a.1, a.2, a.3)) + section(b.0, b.1, b.2, b.3))
            == section(a.0, a.1, a.2, a.3) + section(b.0, b.1, b.2, b.3),
{
    let first = trimmed(before + section(a.0, a.1, a.2, a.3));
    lemma_push_keeps_wf(before, a.0, a.1, a.2, a.3);
    let second = first + section(b.0, b.1, b.2, b.3);
    assert(first.len() == 4 || first.len() == 8);
    if first.len() == 4 {
        assert(first =~= section(a.0, a.1, a.2, a.3));
        assert(trimmed(second) =~= section(a.0, a.1, a.2, a.3) + section(b.0, b.1, b.2, b.3));
    } else {
        assert(first.subrange(4, 8) =~= section(a.0, a.1, a.2, a.3));
        assert(trimmed(second) =~= section(a.0, a.1, a.2, a.3) + section(b.0, b.1, b.2, b.3));
    }
}

} // verus!
