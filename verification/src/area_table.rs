//! The server windows that the client knows, by identifier: each update of
//! the server replaces the area of its identifier, and the areas are handed
//! to the window system sorted by identifier.

use crate::areas::{area_changes, ids_missing_from, ClientArea};
use vstd::prelude::*;

verus! {

/// The identifiers of `s` increase strictly.
pub open spec fn ids_increasing(s: Seq<ClientArea>) -> bool {
    forall|i: int, j: int| 0 <= i < j < s.len() ==> s[i].id < s[j].id
}

/// Whether `s` has an area of identifier `id`.
pub open spec fn has_id(s: Seq<ClientArea>, id: usize) -> bool {
    exists|k: int| 0 <= k < s.len() && s[k].id == id
}

/// The areas of `s`, by identifier.
pub open spec fn areas_map(s: Seq<ClientArea>) -> Map<usize, ClientArea> {
    Map::new(|id: usize| has_id(s, id), |id: usize| s[choose|k: int| 0 <= k < s.len() && s[k].id == id])
}

/// The areas of `m` after the updates `updates`, in order: each replaces the
/// area of its identifier.
pub open spec fn apply_all(m: Map<usize, ClientArea>, updates: Seq<ClientArea>) -> Map<usize, ClientArea>
    decreases updates.len(),
{
    if updates.len() == 0 {
        m
    } else {
        apply_all(m, updates.drop_last()).insert(updates.last().id, updates.last())
    }
}

proof fn lemma_index_of_id(s: Seq<ClientArea>, k: int)
    requires
        ids_increasing(s),
        0 <= k < s.len(),
    ensures
        has_id(s, s[k].id),
        (choose|j: int| 0 <= j < s.len() && s[j].id == s[k].id) == k,
{
    let id = s[k].id;
    assert(0 <= k < s.len() && s[k].id == id);
    let j = choose|j: int| 0 <= j < s.len() && s[j].id == id;
    if j < k {
        assert(s[j].id < s[k].id);
    } else if j > k {
        assert(s[k].id < s[j].id);
    }
}

proof fn lemma_map_of_changed(s: Seq<ClientArea>, t: Seq<ClientArea>, u: ClientArea)
    requires
        ids_increasing(s),
        ids_increasing(t),
        has_id(t, u.id),
        forall|id: usize| id != u.id ==> (has_id(t, id) <==> has_id(s, id)),
        forall|k: int| 0 <= k < t.len() && t[k].id == u.id ==> t[k] == u,
        forall|k: int|
            0 <= k < t.len() && t[k].id != u.id ==> exists|j: int| 0 <= j < s.len() && #[trigger] s[j] == t[k],
    ensures
        areas_map(t) == areas_map(s).insert(u.id, u),
{
    let a = areas_map(t);
    let b = areas_map(s).insert(u.id, u);
    assert forall|id: usize| a.contains_key(id) <==> b.contains_key(id) by {}
    assert forall|id: usize| a.contains_key(id) implies a[id] == b[id] by {
        let k = choose|k: int| 0 <= k < t.len() && t[k].id == id;
        lemma_index_of_id(t, k);
        if id != u.id {
            let j = choose|j: int| 0 <= j < s.len() && s[j] == t[k];
            lemma_index_of_id(s, j);
        }
    }
    assert(a =~= b);
}

/// The areas the client knows, sorted by identifier.
pub struct AreaTable {
    areas: Vec<ClientArea>,
}

impl View for AreaTable {
    type V = Map<usize, ClientArea>;

    closed spec fn view(&self) -> Map<usize, ClientArea> {
        areas_map(self.areas@)
    }
}

impl AreaTable {
    #[verifier::type_invariant]
    spec fn inv(self) -> bool {
        ids_increasing(self.areas@)
    }

    /// The areas, in the order they are handed out.
    pub closed spec fn spec_sorted(self) -> Seq<ClientArea> {
        self.areas@
    }

    /// A table with no area.
    pub fn new() -> (t: Self)
        ensures
            t@ == Map::<usize, ClientArea>::empty(),
            t.spec_sorted().len() == 0,
    {
        let t = AreaTable { areas: Vec::new() };
        assert(areas_map(t.areas@) =~= Map::<usize, ClientArea>::empty());
        t
    }

    /// Takes the update `u` of the server: it replaces the area of its
    /// identifier.
    pub fn update(&mut self, u: ClientArea)
        ensures
            final(self)@ == old(self)@.insert(u.id, u),
    {
        proof {
            use_type_invariant(&*self);
        }
        let ghost s = self.areas@;
        let mut p: usize = 0;
        while p < self.areas.len() && self.areas[p].id < u.id
            invariant
                self.areas@ == s,
                ids_increasing(s),
                p <= s.len(),
                forall|j: int| 0 <= j < p ==> s[j].id < u.id,
            decreases s.len() - p,
        {
            p = p + 1;
        }
        let mut areas: Vec<ClientArea> = Vec::new();
        std::mem::swap(&mut areas, &mut self.areas);
        if p < areas.len() && areas[p].id == u.id {
            areas.set(p, u);
            proof {
                let t = areas@;
                assert forall|id: usize| id != u.id implies (has_id(t, id) <==> has_id(s, id)) by {
                    if has_id(s, id) {
                        let k = choose|k: int| 0 <= k < s.len() && s[k].id == id;
                        assert(t[k].id == id);
                    }
                    if has_id(t, id) {
                        let k = choose|k: int| 0 <= k < t.len() && t[k].id == id;
                        assert(s[k].id == id);
                    }
                }
                assert(t[p as int].id == u.id);
                assert forall|k: int| 0 <= k < t.len() && t[k].id != u.id implies exists|j: int|
                    0 <= j < s.len() && #[trigger] s[j] == t[k] by {
                    assert(s[k] == t[k]);
                }
                lemma_map_of_changed(s, t, u);
            }
        } else {
            areas.insert(p, u);
            proof {
                let t = areas@;
                assert forall|i: int, j: int| 0 <= i < j < t.len() implies t[i].id < t[j].id by {
                    if j < p {
                    } else if j == p {
                    } else if i < p {
                        assert(s[i].id < u.id);
                        assert(u.id <= s[p as int].id);
                        assert(s[p as int].id <= s[j - 1].id);
                    } else if i == p {
                        assert(u.id <= s[p as int].id);
                        assert(u.id != s[p as int].id);
                        assert(s[p as int].id <= s[j - 1].id);
                    } else {
                    }
                }
                assert forall|id: usize| id != u.id implies (has_id(t, id) <==> has_id(s, id)) by {
                    if has_id(s, id) {
                        let k = choose|k: int| 0 <= k < s.len() && s[k].id == id;
                        if k < p {
                            assert(t[k].id == id);
                        } else {
                            assert(t[k + 1].id == id);
                        }
                    }
                    if has_id(t, id) {
                        let k = choose|k: int| 0 <= k < t.len() && t[k].id == id;
                        if k < p {
                            assert(s[k].id == id);
                        } else {
                            assert(k != p);
                            assert(s[k - 1].id == id);
                        }
                    }
                }
                assert(t[p as int] == u);
                assert forall|k: int| 0 <= k < t.len() && t[k].id == u.id implies t[k] == u by {
                    if k != p {
                        assert(t[k].id != t[p as int].id);
                    }
                }
                assert forall|k: int| 0 <= k < t.len() && t[k].id != u.id implies exists|j: int|
                    0 <= j < s.len() && #[trigger] s[j] == t[k] by {
                    if k < p {
                        assert(s[k] == t[k]);
                    } else {
                        assert(s[k - 1] == t[k]);
                    }
                }
                lemma_map_of_changed(s, t, u);
            }
        }
        self.areas = areas;
    }

    /// Takes the updates `updates`, in order.
    pub fn update_all(&mut self, updates: &[ClientArea])
        ensures
            final(self)@ == apply_all(old(self)@, updates@),
    {
        let mut i: usize = 0;
        while i < updates.len()
            invariant
                i <= updates@.len(),
                self@ == apply_all(old(self)@, updates@.take(i as int)),
            decreases updates@.len() - i,
        {
            assert(updates@.take(i + 1).drop_last() =~= updates@.take(i as int));
            self.update(updates[i]);
            i = i + 1;
        }
        assert(updates@.take(updates@.len() as int) =~= updates@);
    }

    /// What changes in the client windows when they go from the areas
    /// `shown` to the areas of the table, sorted: nothing when they are the
    /// same; else the identifiers of the windows to create and of those to
    /// delete, each in order.
    pub fn changes_from(&self, shown: &[ClientArea]) -> (r: Option<(Vec<usize>, Vec<usize>)>)
        ensures
            r is None <==> shown@ == self.spec_sorted(),
            r matches Some((added, removed)) ==> added@ == ids_missing_from(self.spec_sorted(), shown@)
                && removed@ == ids_missing_from(shown@, self.spec_sorted()),
    {
        area_changes(shown, self.areas.as_slice())
    }

    /// The areas, sorted by identifier: each area of the table once.
    pub fn sorted(&self) -> (r: &[ClientArea])
        ensures
            r@ == self.spec_sorted(),
            ids_increasing(r@),
            areas_map(r@) == self@,
    {
        proof {
            use_type_invariant(self);
        }
        self.areas.as_slice()
    }
}

} // verus!
