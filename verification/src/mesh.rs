use vstd::prelude::*;

verus! {

/// How many points one piece of cave wall is built from: two sections.
pub const CHUNK_POINTS: usize = 8;

/// Once the collider list holds this many entries, the oldest piece of cave
/// is removed before a new one is added.
pub const COLLIDER_LIMIT: usize = 100;

/// How many entries one piece of cave adds to the collider list: an upper and
/// a lower collider and an upper and a lower mesh.
pub const PIECE_ENTRIES: usize = 4;

/// The upper wall quad of the chunk `c` of eight points (two sections).
pub open spec fn upper_quad<T>(c: Seq<T>) -> Seq<T> {
    seq![c[4], c[6], c[2], c[0]]
}

/// The lower wall quad of the chunk `c` of eight points (two sections).
pub open spec fn lower_quad<T>(c: Seq<T>) -> Seq<T> {
    seq![c[7], c[5], c[1], c[3]]
}

/// The last eight points of `s`.
pub open spec fn last_chunk<T>(s: Seq<T>) -> Seq<T> {
    s.subrange(s.len() - CHUNK_POINTS, s.len() as int)
}

/// The two wall quads built from the newest eight wall points: the upper one
/// joins the upper points of both sections, the lower one the lower points.
/// There are none while fewer than eight points are stored.
pub fn last_chunk_quads<T: Copy>(verts: &[T]) -> (r: Option<(Vec<T>, Vec<T>)>)
    ensures
        verts@.len() < CHUNK_POINTS ==> r is None,
        verts@.len() >= CHUNK_POINTS ==> (r matches Some((up, down)) && up@ == upper_quad(last_chunk(verts@))
            && down@ == lower_quad(last_chunk(verts@))),
        verts@.len() >= CHUNK_POINTS ==> (r matches Some((up, down)) && up@ == seq![
            verts@[verts@.len() - 4],
            verts@[verts@.len() - 2],
            verts@[verts@.len() - 6],
            verts@[verts@.len() - 8],
        ] && down@ == seq![
            verts@[verts@.len() - 1],
            verts@[verts@.len() - 3],
            verts@[verts@.len() - 7],
            verts@[verts@.len() - 5],
        ]),
{
    proof {
        lemma_quads_use_newest_points(verts@);
    }
    let n = verts.len();
    if n < CHUNK_POINTS {
        return None;
    }
    let base = n - CHUNK_POINTS;
    let mut up: Vec<T> = Vec::new();
    up.push(verts[base + 4]);
    up.push(verts[base + 6]);
    up.push(verts[base + 2]);
    up.push(verts[base]);
    let mut down: Vec<T> = Vec::new();
    down.push(verts[base + 7]);
    down.push(verts[base + 5]);
    down.push(verts[base + 1]);
    down.push(verts[base + 3]);
    let ghost c = last_chunk(verts@);
    assert(up@ =~= upper_quad(c));
    assert(down@ =~= lower_quad(c));
    Some((up, down))
}

/// The two triangles that cover a quad, as indices into its four corners.
pub open spec fn quad_triangles() -> Seq<u16> {
    seq![0u16, 1, 2, 2, 3, 0]
}

/// The triangle indices of a wall quad's mesh.
pub fn quad_indices() -> (r: Vec<u16>)
    ensures
        r@ == quad_triangles(),
{
    let r: Vec<u16> = vec![0, 1, 2, 2, 3, 0];
    assert(r@ =~= quad_triangles());
    r
}

/// The entities that make up the generated cave, oldest first.
pub struct ColliderList<T> {
    colliders: Vec<T>,
}

impl<T> View for ColliderList<T> {
    type V = Seq<T>;

    closed spec fn view(&self) -> Seq<T> {
        self.colliders@
    }
}

/// What the list holds after `evict_oldest` on a list holding `s`.
pub open spec fn after_eviction<T>(s: Seq<T>) -> Seq<T> {
    if s.len() >= COLLIDER_LIMIT {
        s.skip(PIECE_ENTRIES as int)
    } else {
        s
    }
}

/// What `evict_oldest` hands back for a list holding `s`.
pub open spec fn evicted<T>(s: Seq<T>) -> Seq<T> {
    if s.len() >= COLLIDER_LIMIT {
        s.take(PIECE_ENTRIES as int)
    } else {
        Seq::empty()
    }
}

impl<T> ColliderList<T> {
    /// The list holds whole pieces and at most the limit.
    pub open spec fn wf(&self) -> bool {
        &&& self@.len() <= COLLIDER_LIMIT
        &&& self@.len() % (PIECE_ENTRIES as nat) == 0
    }

    /// An empty list.
    pub fn new() -> (r: Self)
        ensures
            r@ == Seq::<T>::empty(),
            r.wf(),
    {
        ColliderList { colliders: Vec::new() }
    }

    /// Once the list holds the limit or more, takes its four oldest entries
    /// out and hands them back, oldest first, to be despawned; otherwise hands
    /// back nothing.
    pub fn evict_oldest(&mut self) -> (gone: Vec<T>)
        ensures
            final(self)@ == after_eviction(old(self)@),
            gone@ == evicted(old(self)@),
            gone@ + final(self)@ == old(self)@,
            old(self)@.len() < COLLIDER_LIMIT ==> gone@.len() == 0 && final(self)@ == old(self)@,
            old(self)@.len() >= COLLIDER_LIMIT ==> gone@.len() == PIECE_ENTRIES,
    {
        proof {
            lemma_eviction_only_when_full(self.colliders@);
        }
        let ghost before = self.colliders@;
        let mut gone: Vec<T> = Vec::new();
        if self.colliders.len() >= COLLIDER_LIMIT {
            let mut k: usize = 0;
            while k < PIECE_ENTRIES
                invariant
                    0 <= k <= PIECE_ENTRIES,
                    before.len() >= COLLIDER_LIMIT,
                    self.colliders@ =~= before.skip(k as int),
                    gone@ =~= before.take(k as int),
                decreases PIECE_ENTRIES - k,
            {
                let e = self.colliders.remove(0);
                gone.push(e);
                k = k + 1;
            }
        }
        assert(gone@ + self.colliders@ =~= before);
        gone
    }

    /// Records the four entities of a new piece of cave.
    pub fn record_piece(&mut self, upper_collider: T, lower_collider: T, upper_mesh: T, lower_mesh: T)
        requires
            old(self)@.len() + PIECE_ENTRIES <= usize::MAX,
        ensures
            final(self)@ == old(self)@ + seq![upper_collider, lower_collider, upper_mesh, lower_mesh],
    {
        let ghost before = self.colliders@;
        self.colliders.push(upper_collider);
        self.colliders.push(lower_collider);
        self.colliders.push(upper_mesh);
        self.colliders.push(lower_mesh);
        assert(self.colliders@ =~= before + seq![upper_collider, lower_collider, upper_mesh, lower_mesh]);
    }

    /// The recorded entities, oldest first.
    pub fn as_slice(&self) -> (s: &[T])
        ensures
            s@ == self@,
    {
        self.colliders.as_slice()
    }

    /// The number of recorded entities.
    pub fn len(&self) -> (n: usize)
        ensures
            n == self@.len(),
    {
        self.colliders.len()
    }
}


/// What a frame of cave building is to do: the entities to despawn, and the
/// two wall quads of the new piece, if there is one.
pub struct CavePlan<E, P> {
    pub despawn: Vec<E>,
    pub quads: Option<(Vec<P>, Vec<P>)>,
}

/// Plans a frame of cave building. Only in a frame in which the wall timer has
/// just finished: the oldest piece is evicted from a full list, and, once
/// eight wall points are stored, the newest eight make the quads of a new
/// piece, whose entities the caller spawns and records.
pub fn plan_cave_update<E, P: Copy>(list: &mut ColliderList<E>, rebuild_due: bool, verts: &[P]) -> (plan: CavePlan<E, P>)
    ensures
        !rebuild_due ==> final(list)@ == old(list)@ && plan.despawn@ == Seq::<E>::empty() && plan.quads is None,
        rebuild_due ==> final(list)@ == after_eviction(old(list)@) && plan.despawn@ == evicted(old(list)@),
        rebuild_due && verts@.len() < CHUNK_POINTS ==> plan.quads is None,
        rebuild_due && verts@.len() >= CHUNK_POINTS ==> (plan.quads matches Some((up, down)) && up@ == upper_quad(
            last_chunk(verts@),
        ) && down@ == lower_quad(last_chunk(verts@))),
{
    if !rebuild_due {
        return CavePlan { despawn: Vec::new(), quads: None };
    }
    let despawn = list.evict_oldest();
    let quads = last_chunk_quads(verts);
    CavePlan { despawn, quads }
}

/// A round of cave building: an eviction, then the four entities of a new
/// piece. Starting from a list of whole pieces within the limit, the list
/// stays within the limit and holds whole pieces, and the new piece is its
/// newest entries.
pub proof fn lemma_update_keeps_limit<T>(before: Seq<T>, piece: Seq<T>)
    requires
        before.len() <= COLLIDER_LIMIT,
        before.len() % (PIECE_ENTRIES as nat) == 0,
        piece.len() == PIECE_ENTRIES,
    ensures
        ({
            let after = after_eviction(before) + piece;
            &&& after.len() <= COLLIDER_LIMIT
            &&& after.len() % (PIECE_ENTRIES as nat) == 0
            &&& after.subrange(after.len() - PIECE_ENTRIES, after.len() as int) == piece
        }),
{
    let after = after_eviction(before) + piece;
    assert(after.subrange(after.len() - 4, after.len() as int) =~= piece);
}

/// The order in which the eight points of a chunk go into the upper and then
/// the lower quad.
pub open spec fn quad_order() -> Seq<int> {
    seq![4int, 6, 2, 0, 7, 5, 1, 3]
}

/// The two quads of a chunk use each of its eight points exactly once: they
/// are the chunk's points in the order `quad_order`, which names every
/// position of the chunk once.
pub proof fn lemma_quads_partition_chunk<T>(c: Seq<T>)
    requires
        c.len() == CHUNK_POINTS,
    ensures
        upper_quad(c) + lower_quad(c) == quad_order().map_values(|i: int| c[i]),
        forall|j: int| 0 <= j < CHUNK_POINTS ==> #[trigger] quad_order().contains(j),
        forall|a: int, b: int| 0 <= a < b < CHUNK_POINTS ==> quad_order()[a] != quad_order()[b],
        forall|a: int| 0 <= a < CHUNK_POINTS ==> 0 <= #[trigger] quad_order()[a] < CHUNK_POINTS,
{
    assert(upper_quad(c) + lower_quad(c) =~= quad_order().map_values(|i: int| c[i]));
    assert forall|j: int| 0 <= j < CHUNK_POINTS implies #[trigger] quad_order().contains(j) by {
        if j == 0 { assert(quad_order()[3] == j); }
        else if j == 1 { assert(quad_order()[6] == j); }
        else if j == 2 { assert(quad_order()[2] == j); }
        else if j == 3 { assert(quad_order()[7] == j); }
        else if j == 4 { assert(quad_order()[0] == j); }
        else if j == 5 { assert(quad_order()[5] == j); }
        else if j == 6 { assert(quad_order()[1] == j); }
        else { assert(quad_order()[4] == j); }
    }
}

/// For a chunk made of section `a` followed by section `b` (each stored as
/// inner upper, inner lower, outer upper, outer lower), the upper quad runs
/// along the upper points and the lower quad along the lower points, each
/// going round its quad without crossing.
pub proof fn lemma_quads_of_two_sections<T>(a: (T, T, T, T), b: (T, T, T, T))
    ensures
        ({
            let c = seq![a.0, a.1, a.2, a.3, b.0, b.1, b.2, b.3];
            &&& upper_quad(c) == seq![b.0, b.2, a.2, a.0]
            &&& lower_quad(c) == seq![b.3, b.1, a.1, a.3]
        }),
{
    let c = seq![a.0, a.1, a.2, a.3, b.0, b.1, b.2, b.3];
    assert(upper_quad(c) =~= seq![b.0, b.2, a.2, a.0]);
    assert(lower_quad(c) =~= seq![b.3, b.1, a.1, a.3]);
}

/// The two triangles of a quad only name its four corners, and name each of
/// them.
pub proof fn lemma_quad_triangles_cover_quad()
    ensures
        quad_triangles().len() == 6,
        forall|i: int| 0 <= i < 6 ==> #[trigger] quad_triangles()[i] < 4,
        forall|k: u16| k < 4 ==> #[trigger] quad_triangles().contains(k),
{
    assert forall|k: u16| k < 4 implies #[trigger] quad_triangles().contains(k) by {
        if k == 0 { assert(quad_triangles()[0] == k); }
        else if k == 1 { assert(quad_triangles()[1] == k); }
        else if k == 2 { assert(quad_triangles()[2] == k); }
        else { assert(quad_triangles()[4] == k); }
    }
}


/// The quads come from the newest eight points `v[n-8..n]`: the upper one is
/// `v[n-4], v[n-2], v[n-6], v[n-8]`, the lower one `v[n-1], v[n-3], v[n-7],
/// v[n-5]`.
pub proof fn lemma_quads_use_newest_points<T>(v: Seq<T>)
    ensures
        v.len() >= CHUNK_POINTS ==> upper_quad(last_chunk(v)) == seq![v[v.len() - 4], v[v.len() - 2], v[v.len() - 6], v[v.len() - 8]],
        v.len() >= CHUNK_POINTS ==> lower_quad(last_chunk(v)) == seq![v[v.len() - 1], v[v.len() - 3], v[v.len() - 7], v[v.len() - 5]],
{
    if v.len() >= CHUNK_POINTS {
        assert(upper_quad(last_chunk(v)) =~= seq![v[v.len() - 4], v[v.len() - 2], v[v.len() - 6], v[v.len() - 8]]);
        assert(lower_quad(last_chunk(v)) =~= seq![v[v.len() - 1], v[v.len() - 3], v[v.len() - 7], v[v.len() - 5]]);
    }
}


/// Nothing is evicted from a list below the limit; from a list at the limit
/// or above, exactly its four oldest entries are evicted and the rest stay in
/// order.
pub proof fn lemma_eviction_only_when_full<T>(s: Seq<T>)
    ensures
        s.len() < COLLIDER_LIMIT ==> evicted(s).len() == 0 && after_eviction(s) == s,
        s.len() >= COLLIDER_LIMIT ==> evicted(s).len() == PIECE_ENTRIES && evicted(s) + after_eviction(s) == s
            && (forall|i: int| 0 <= i < PIECE_ENTRIES ==> #[trigger] evicted(s)[i] == s[i])
            && (forall|i: int| 0 <= i < s.len() - PIECE_ENTRIES ==> #[trigger] after_eviction(s)[i] == s[i + PIECE_ENTRIES]),
{
    if s.len() >= COLLIDER_LIMIT {
        assert(evicted(s) + after_eviction(s) =~= s);
    }
}

} // verus!
