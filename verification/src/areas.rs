//! The windows of the server screen that the client mirrors in seamless
//! mode: each known window has an area, under a small identifier.

use std::cmp::Ordering;
use vstd::prelude::*;

verus! {

/// A server side window, as the client mirrors it.
#[derive(Debug)]
pub struct Area {
    /// The window.
    pub drawable: u32,
    pub position: (i16, i16),
    pub size: (u16, u16),
    pub mapped: bool,
    /// The window belongs to an application (it has a name).
    pub is_app: bool,
    pub name: String,
}

/// The areas held in `slots`, by identifier.
pub open spec fn area_map(slots: Seq<Option<Area>>) -> Map<usize, Area> {
    Map::new(|i: usize| (i as int) < slots.len() && slots[i as int] is Some, |i: usize| slots[i as int]->0)
}

/// No two areas are linked to the same window.
pub open spec fn windows_unique(m: Map<usize, Area>) -> bool {
    forall|i: usize, j: usize|
        m.contains_key(i) && m.contains_key(j) && i != j ==> #[trigger] m[i].drawable
            != #[trigger] m[j].drawable
}

/// Some area is linked to `window`.
pub open spec fn has_window(m: Map<usize, Area>, window: u32) -> bool {
    exists|i: usize| m.contains_key(i) && #[trigger] m[i].drawable == window
}

/// `c` comes before `d` in the order of code points.
pub open spec fn char_below(c: char, d: char) -> bool {
    (c as u32) < (d as u32)
}

/// The code point of `c`.
fn char_code(c: char) -> (n: u32)
    ensures
        n == c as u32,
{
    c as u32
}

/// Order of two window identifiers.
pub open spec fn u32_order(a: u32, b: u32) -> Ordering {
    if a < b {
        Ordering::Less
    } else if b < a {
        Ordering::Greater
    } else {
        Ordering::Equal
    }
}

/// Lexicographic order of two sizes.
pub open spec fn size_order(a: (u16, u16), b: (u16, u16)) -> Ordering {
    if a.0 < b.0 {
        Ordering::Less
    } else if b.0 < a.0 {
        Ordering::Greater
    } else if a.1 < b.1 {
        Ordering::Less
    } else if b.1 < a.1 {
        Ordering::Greater
    } else {
        Ordering::Equal
    }
}

/// Lexicographic order of two positions.
pub open spec fn position_order(a: (i16, i16), b: (i16, i16)) -> Ordering {
    if a.0 < b.0 {
        Ordering::Less
    } else if b.0 < a.0 {
        Ordering::Greater
    } else if a.1 < b.1 {
        Ordering::Less
    } else if b.1 < a.1 {
        Ordering::Greater
    } else {
        Ordering::Equal
    }
}

/// `first` unless it is `Equal`, then `then`.
pub open spec fn order_then(first: Ordering, then: Ordering) -> Ordering {
    match first {
        Ordering::Equal => then,
        _ => first,
    }
}

/// Order of two texts from position `i` on, character by character, where
/// the characters before `i` are the same: a text that ends first comes
/// first.
pub open spec fn chars_order_from(a: Seq<char>, b: Seq<char>, i: int) -> Ordering
    decreases a.len() - i,
{
    if i >= a.len() {
        if i >= b.len() {
            Ordering::Equal
        } else {
            Ordering::Less
        }
    } else if i >= b.len() {
        Ordering::Greater
    } else if char_below(a[i], b[i]) {
        Ordering::Less
    } else if char_below(b[i], a[i]) {
        Ordering::Greater
    } else {
        chars_order_from(a, b, i + 1)
    }
}

/// Lexicographic order of two texts, by code point.
pub open spec fn chars_order(a: Seq<char>, b: Seq<char>) -> Ordering {
    chars_order_from(a, b, 0)
}

/// Order of two flags: unset first.
pub open spec fn bool_order(a: bool, b: bool) -> Ordering {
    if a == b {
        Ordering::Equal
    } else if !a {
        Ordering::Less
    } else {
        Ordering::Greater
    }
}

/// Order of two areas: by window, then size, then position (each pair
/// lexicographically), then mapped, then application flag, then name.
pub open spec fn area_order(a: Area, b: Area) -> Ordering {
    order_then(
        u32_order(a.drawable, b.drawable),
        order_then(
            size_order(a.size, b.size),
            order_then(
                position_order(a.position, b.position),
                order_then(
                    bool_order(a.mapped, b.mapped),
                    order_then(bool_order(a.is_app, b.is_app), chars_order(a.name@, b.name@)),
                ),
            ),
        ),
    )
}

/// `i` as a mathematical integer.
pub open spec fn index_int(i: usize) -> int {
    i as int
}

/// The opposite order: what `a` against `b` gives, `b` against `a`.
pub open spec fn order_reverse(o: Ordering) -> Ordering {
    match o {
        Ordering::Less => Ordering::Greater,
        Ordering::Equal => Ordering::Equal,
        Ordering::Greater => Ordering::Less,
    }
}

/// Lexicographic order of two names, by code point.
pub fn name_order(a: &str, b: &str) -> (r: Ordering)
    ensures
        r == chars_order(a@, b@),
{
    let la = a.unicode_len();
    let lb = b.unicode_len();
    let mut i: usize = 0;
    while i < la && i < lb
        invariant
            la == a@.len(),
            lb == b@.len(),
            i <= la,
            i <= lb,
            chars_order(a@, b@) == chars_order_from(a@, b@, index_int(i)),
        decreases la - i,
    {
        let ca = char_code(a.get_char(i));
        let cb = char_code(b.get_char(i));
        if ca < cb {
            return Ordering::Less;
        }
        if cb < ca {
            return Ordering::Greater;
        }
        i = i + 1;
    }
    if i < lb {
        Ordering::Less
    } else if i < la {
        Ordering::Greater
    } else {
        Ordering::Equal
    }
}

impl Area {
    /// Order of two areas: by window, then size, then position, then
    /// mapped, then application flag, then name.
    pub fn cmp(&self, other: &Area) -> (r: Ordering)
        ensures
            r == area_order(*self, *other),
    {
        if self.drawable < other.drawable {
            return Ordering::Less;
        }
        if other.drawable < self.drawable {
            return Ordering::Greater;
        }
        if self.size.0 < other.size.0 {
            return Ordering::Less;
        }
        if other.size.0 < self.size.0 {
            return Ordering::Greater;
        }
        if self.size.1 < other.size.1 {
            return Ordering::Less;
        }
        if other.size.1 < self.size.1 {
            return Ordering::Greater;
        }
        if self.position.0 < other.position.0 {
            return Ordering::Less;
        }
        if other.position.0 < self.position.0 {
            return Ordering::Greater;
        }
        if self.position.1 < other.position.1 {
            return Ordering::Less;
        }
        if other.position.1 < self.position.1 {
            return Ordering::Greater;
        }
        if self.mapped != other.mapped {
            return if self.mapped {
                Ordering::Greater
            } else {
                Ordering::Less
            };
        }
        if self.is_app != other.is_app {
            return if self.is_app {
                Ordering::Greater
            } else {
                Ordering::Less
            };
        }
        name_order(self.name.as_str(), other.name.as_str())
    }

    /// The order of `cmp`, which is total.
    pub fn partial_cmp(&self, other: &Area) -> (r: Option<Ordering>)
        ensures
            r == Some(area_order(*self, *other)),
    {
        Some(self.cmp(other))
    }
}

/// Of two characters, one comes before the other unless they are the same.
pub proof fn lemma_char_below_total(c: char, d: char)
    ensures
        (c == d) <==> (!char_below(c, d) && !char_below(d, c)),
{
    assert((c as u32) == (d as u32) ==> c == d);
}

/// Comparing texts from `i` on the other way round gives the opposite
/// order, and they are equal from `i` on exactly when their remaining
/// characters are.
pub proof fn lemma_chars_order_from_reverse(a: Seq<char>, b: Seq<char>, i: int)
    requires
        0 <= i <= a.len(),
        i <= b.len(),
    ensures
        chars_order_from(b, a, i) == order_reverse(chars_order_from(a, b, i)),
        (chars_order_from(a, b, i) == Ordering::Equal) <==> (a.len() == b.len() && forall|j: int|
            i <= j < a.len() ==> a[j] == b[j]),
    decreases a.len() - i,
{
    if i < a.len() && i < b.len() && !char_below(a[i], b[i]) && !char_below(b[i], a[i]) {
        lemma_chars_order_from_reverse(a, b, i + 1);
        lemma_char_below_total(a[i], b[i]);
    } else if i < a.len() && i < b.len() {
        lemma_char_below_total(a[i], b[i]);
    }
}

/// The order of areas is antisymmetric, and two areas are equal in it
/// exactly when all their fields are, names compared by their characters.
pub proof fn lemma_area_order_reverse(a: Area, b: Area)
    ensures
        area_order(b, a) == order_reverse(area_order(a, b)),
        (area_order(a, b) == Ordering::Equal) <==> (a.drawable == b.drawable && a.size == b.size
            && a.position == b.position && a.mapped == b.mapped && a.is_app == b.is_app && a.name@
            == b.name@),
{
    lemma_chars_order_from_reverse(a.name@, b.name@, 0);
    if chars_order(a.name@, b.name@) == Ordering::Equal {
        assert(a.name@ =~= b.name@);
    }
}

/// Texts compared from `i` on are ordered transitively.
pub proof fn lemma_chars_order_from_transitive(a: Seq<char>, b: Seq<char>, c: Seq<char>, i: int)
    requires
        0 <= i,
        chars_order_from(a, b, i) == Ordering::Less,
        chars_order_from(b, c, i) == Ordering::Less,
    ensures
        chars_order_from(a, c, i) == Ordering::Less,
    decreases a.len() - i,
{
    if i < a.len() && i < b.len() && i < c.len() {
        lemma_char_below_total(a[i], b[i]);
        lemma_char_below_total(b[i], c[i]);
        if a[i] == b[i] && b[i] == c[i] {
            lemma_chars_order_from_transitive(a, b, c, i + 1);
        }
    }
}

/// The order of areas is transitive: with the two laws above, a total order.
pub proof fn lemma_area_order_transitive(a: Area, b: Area, c: Area)
    requires
        area_order(a, b) == Ordering::Less,
        area_order(b, c) == Ordering::Less,
    ensures
        area_order(a, c) == Ordering::Less,
{
    lemma_area_order_reverse(a, b);
    lemma_area_order_reverse(b, c);
    lemma_area_order_reverse(a, c);
    if chars_order(a.name@, b.name@) == Ordering::Less && chars_order(b.name@, c.name@)
        == Ordering::Less {
        lemma_chars_order_from_transitive(a.name@, b.name@, c.name@, 0);
    }
}

/// A rectangle of the shape mask: left, top, width, height.
pub open spec fn shape_rect(a: Area) -> (i16, i16, u16, u16) {
    (a.position.0, a.position.1, a.size.0, a.size.1)
}

/// The shape rectangles of the mapped areas of `m` with an identifier
/// below `n`, by identifier.
pub open spec fn mapped_rects(m: Map<usize, Area>, n: nat) -> Seq<(i16, i16, u16, u16)>
    decreases n,
{
    if n == 0 {
        Seq::empty()
    } else {
        let rest = mapped_rects(m, (n - 1) as nat);
        let id = (n - 1) as usize;
        if m.contains_key(id) && m[id].mapped {
            rest.push(shape_rect(m[id]))
        } else {
            rest
        }
    }
}

/// Width of the border of a Windows client window.
pub const WINDOW_BORDER: i32 = 3;

/// The clipping rectangle of an area in a Windows client window: left, top,
/// right, bottom, moved by the border.
pub open spec fn clip_rect(a: Area) -> (i32, i32, i32, i32) {
    (
        (a.position.0 + WINDOW_BORDER) as i32,
        (a.position.1 + WINDOW_BORDER) as i32,
        (a.position.0 + a.size.0 + WINDOW_BORDER) as i32,
        (a.position.1 + a.size.1 + WINDOW_BORDER) as i32,
    )
}

/// The clipping rectangles of the mapped areas among `zones`, in order.
pub open spec fn clip_rects(zones: Seq<Area>) -> Seq<(i32, i32, i32, i32)>
    decreases zones.len(),
{
    if zones.len() == 0 {
        Seq::empty()
    } else {
        let rest = clip_rects(zones.drop_last());
        if zones.last().mapped {
            rest.push(clip_rect(zones.last()))
        } else {
            rest
        }
    }
}

/// The clipping rectangles of the mapped areas among `zones`, in order.
pub fn region_rects(zones: &[Area]) -> (r: Vec<(i32, i32, i32, i32)>)
    ensures
        r@ == clip_rects(zones@),
{
    let mut r: Vec<(i32, i32, i32, i32)> = Vec::new();
    let mut i: usize = 0;
    while i < zones.len()
        invariant
            i <= zones@.len(),
            r@ == clip_rects(zones@.take(i as int)),
        decreases zones@.len() - i,
    {
        assert(zones@.take(i + 1).drop_last() =~= zones@.take(i as int));
        let a = &zones[i];
        if a.mapped {
            let left = a.position.0 as i32 + WINDOW_BORDER;
            let top = a.position.1 as i32 + WINDOW_BORDER;
            let right = a.position.0 as i32 + a.size.0 as i32 + WINDOW_BORDER;
            let bottom = a.position.1 as i32 + a.size.1 as i32 + WINDOW_BORDER;
            r.push((left, top, right, bottom));
        }
        i = i + 1;
    }
    assert(zones@.take(zones@.len() as int) =~= zones@);
    r
}

/// What the client is told of an area each round.
#[derive(Debug)]
pub struct AreaUpdate {
    pub id: u32,
    pub x: i32,
    pub y: i32,
    pub width: u32,
    pub height: u32,
    pub mapped: bool,
    pub is_app: bool,
    pub name: String,
}

/// The update of the area `a` of identifier `id`.
pub open spec fn area_update(id: usize, a: Area) -> AreaUpdate {
    AreaUpdate {
        id: id as u32,
        x: a.position.0 as i32,
        y: a.position.1 as i32,
        width: a.size.0 as u32,
        height: a.size.1 as u32,
        mapped: a.mapped,
        is_app: a.is_app,
        name: a.name,
    }
}

/// The updates of the areas of `m` with an identifier below `n`, by
/// identifier.
pub open spec fn area_updates(m: Map<usize, Area>, n: nat) -> Seq<AreaUpdate>
    decreases n,
{
    if n == 0 {
        Seq::empty()
    } else {
        let rest = area_updates(m, (n - 1) as nat);
        let id = (n - 1) as usize;
        if m.contains_key(id) {
            rest.push(area_update(id, m[id]))
        } else {
            rest
        }
    }
}

/// A server window as the client knows it, from the updates it receives.
#[derive(Debug, Clone, Copy, PartialEq, Eq)]
pub struct ClientArea {
    pub id: usize,
    pub size: (u16, u16),
    pub position: (i16, i16),
    pub mapped: bool,
}

/// The area that the client makes of the update `u`.
pub open spec fn spec_client_area(u: AreaUpdate) -> ClientArea {
    ClientArea {
        id: u.id as usize,
        size: (u.width as u16, u.height as u16),
        position: (u.x as i16, u.y as i16),
        mapped: u.mapped,
    }
}

/// The area that the client makes of the update `u`: the fields cut back
/// to the widths of a window's geometry.
pub fn client_area(u: &AreaUpdate) -> (a: ClientArea)
    ensures
        a == spec_client_area(*u),
{
    ClientArea {
        id: u.id as usize,
        size: (u.width as u16, u.height as u16),
        position: (u.x as i16, u.y as i16),
        mapped: u.mapped,
    }
}

/// What the server tells of an area, the client knows exactly: its
/// position, size and mapping, under the same identifier when that fits in
/// 32 bits.
pub proof fn lemma_area_update_round_trip(id: usize, a: Area)
    ensures
        spec_client_area(area_update(id, a)).position == a.position,
        spec_client_area(area_update(id, a)).size == a.size,
        spec_client_area(area_update(id, a)).mapped == a.mapped,
        id <= u32::MAX ==> spec_client_area(area_update(id, a)).id == id,
{
    let (x, y) = a.position;
    assert(((x as i32) as i16) == x) by (bit_vector);
    assert(((y as i32) as i16) == y) by (bit_vector);
}

/// Some area of `b` has the identifier `id`.
pub open spec fn has_id(b: Seq<ClientArea>, id: usize) -> bool {
    exists|j: int| 0 <= j < b.len() && #[trigger] b[j].id == id
}

/// The identifiers of the areas of `a` that `b` has no area for, in order.
pub open spec fn ids_missing_from(a: Seq<ClientArea>, b: Seq<ClientArea>) -> Seq<usize>
    decreases a.len(),
{
    if a.len() == 0 {
        Seq::empty()
    } else {
        let rest = ids_missing_from(a.drop_last(), b);
        if has_id(b, a.last().id) {
            rest
        } else {
            rest.push(a.last().id)
        }
    }
}

/// Whether some area of `b` has the identifier `id`.
fn contains_id(b: &[ClientArea], id: usize) -> (r: bool)
    ensures
        r == has_id(b@, id),
{
    let mut j: usize = 0;
    while j < b.len()
        invariant
            j <= b@.len(),
            forall|k: int| 0 <= k < j ==> b@[k].id != id,
        decreases b@.len() - j,
    {
        if b[j].id == id {
            return true;
        }
        j = j + 1;
    }
    false
}

/// The identifiers of the areas of `a` that `b` has no area for, in order.
fn missing_ids(a: &[ClientArea], b: &[ClientArea]) -> (r: Vec<usize>)
    ensures
        r@ == ids_missing_from(a@, b@),
{
    let mut r: Vec<usize> = Vec::new();
    let mut i: usize = 0;
    while i < a.len()
        invariant
            i <= a@.len(),
            r@ == ids_missing_from(a@.take(i as int), b@),
        decreases a@.len() - i,
    {
        assert(a@.take(i + 1).drop_last() =~= a@.take(i as int));
        if !contains_id(b, a[i].id) {
            r.push(a[i].id);
        }
        i = i + 1;
    }
    assert(a@.take(a@.len() as int) =~= a@);
    r
}

/// Whether two areas are the same.
fn same_area(x: &ClientArea, y: &ClientArea) -> (r: bool)
    ensures
        r == (*x == *y),
{
    x.id == y.id && x.size.0 == y.size.0 && x.size.1 == y.size.1 && x.position.0 == y.position.0
        && x.position.1 == y.position.1 && x.mapped == y.mapped
}

/// Whether two lists of areas are the same.
fn same_areas(a: &[ClientArea], b: &[ClientArea]) -> (r: bool)
    ensures
        r == (a@ == b@),
{
    if a.len() != b.len() {
        return false;
    }
    let mut i: usize = 0;
    while i < a.len()
        invariant
            a@.len() == b@.len(),
            i <= a@.len(),
            forall|k: int| 0 <= k < i ==> a@[k] == b@[k],
        decreases a@.len() - i,
    {
        if !same_area(&a[i], &b[i]) {
            return false;
        }
        i = i + 1;
    }
    assert(a@ =~= b@);
    true
}

/// What changes when the client's areas go from `cur` to `new` (each by
/// identifier): nothing when they are the same; else the identifiers of the
/// windows to create (areas of `new` with an identifier that `cur` lacks),
/// and of those to delete (areas of `cur` with an identifier that `new`
/// lacks), each in order, and the new shape is to be drawn.
pub fn area_changes(cur: &[ClientArea], new: &[ClientArea]) -> (r: Option<(Vec<usize>, Vec<usize>)>)
    ensures
        r is None <==> cur@ == new@,
        r matches Some((added, removed)) ==> added@ == ids_missing_from(new@, cur@) && removed@
            == ids_missing_from(cur@, new@),
{
    if same_areas(cur, new) {
        None
    } else {
        let added = missing_ids(new, cur);
        let removed = missing_ids(cur, new);
        Some((added, removed))
    }
}

/// The first window of `children` that `apps` lists, if any.
pub open spec fn first_listed(children: Seq<u32>, apps: Seq<u32>) -> Option<u32>
    decreases children.len(),
{
    if children.len() == 0 {
        None
    } else if apps.contains(children[0]) {
        Some(children[0])
    } else {
        first_listed(children.drop_first(), apps)
    }
}

/// Whether `apps` lists `w`.
fn listed(apps: &[u32], w: u32) -> (r: bool)
    ensures
        r == apps@.contains(w),
{
    let mut j: usize = 0;
    while j < apps.len()
        invariant
            j <= apps@.len(),
            forall|k: int| 0 <= k < j ==> apps@[k] != w,
        decreases apps@.len() - j,
    {
        if apps[j] == w {
            return true;
        }
        j = j + 1;
    }
    false
}

/// The child window that makes a window an application's: the first of
/// its `children` that the window manager lists among the applications
/// `apps`.
pub fn first_app_child(children: &[u32], apps: &[u32]) -> (r: Option<u32>)
    ensures
        r == first_listed(children@, apps@),
{
    let mut i: usize = 0;
    assert(children@.skip(0) =~= children@);
    while i < children.len()
        invariant
            i <= children@.len(),
            first_listed(children@, apps@) == first_listed(children@.skip(i as int), apps@),
        decreases children@.len() - i,
    {
        assert(children@.skip(i as int).drop_first() =~= children@.skip(i + 1));
        if listed(apps, children[i]) {
            return Some(children[i]);
        }
        i = i + 1;
    }
    assert(children@.skip(i as int) =~= Seq::<u32>::empty());
    None
}

/// An event of the X server about a window, as the server reacts to it.
#[derive(Debug, Clone, Copy, PartialEq, Eq)]
pub enum ServerWindowEvent {
    /// A window was created.
    Created { window: u32 },
    /// A window was mapped.
    Mapped { window: u32 },
    /// A window was unmapped.
    Unmapped { window: u32 },
    /// A window was destroyed.
    Destroyed { window: u32 },
    /// A window moved or changed size.
    Configured { window: u32, x: i16, y: i16, width: u16, height: u16 },
    /// A window was given a new parent.
    Reparented { window: u32, parent: u32 },
    /// A client message (such as a window activation).
    ClientMessage,
    /// Part of the screen changed.
    Damage,
    /// Any other event.
    Other,
}

/// The identifier of the area of `window` in `m`.
pub open spec fn window_id(m: Map<usize, Area>, window: u32) -> usize {
    choose|i: usize| m.contains_key(i) && m[i].drawable == window
}

/// The smallest identifier that `m` leaves free.
pub open spec fn first_free_id(m: Map<usize, Area>) -> usize {
    choose|id: usize| !m.contains_key(id) && forall|j: usize| j < id ==> m.contains_key(j)
}

/// The window whose attributes must be read from the X server before the
/// event `e` is taken: a window created or mapped that is not the root and
/// has no area yet.
pub open spec fn spec_area_needed(m: Map<usize, Area>, root: u32, e: ServerWindowEvent) -> Option<u32> {
    match e {
        ServerWindowEvent::Created { window } => if window != root && !has_window(m, window) {
            Some(window)
        } else {
            None
        },
        ServerWindowEvent::Mapped { window } => if window != root && !has_window(m, window) {
            Some(window)
        } else {
            None
        },
        _ => None,
    }
}

/// `m` with the area `fetched` (read for the window that needs one) given
/// the first free identifier; whether an area was made.
pub open spec fn with_new_area(m: Map<usize, Area>, root: u32, e: ServerWindowEvent, fetched: Option<Area>) -> (
    Map<usize, Area>,
    bool,
) {
    if spec_area_needed(m, root, e) is Some && fetched is Some {
        (m.insert(first_free_id(m), fetched->0), true)
    } else {
        (m, false)
    }
}

/// What the event `e` does to the areas `m`, the attributes of a window
/// that needed them being `fetched` (none when they could not be read):
/// the new areas, whether the areas changed, and whether the image did.
pub open spec fn spec_area_event(m: Map<usize, Area>, root: u32, e: ServerWindowEvent, fetched: Option<Area>) -> (
    Map<usize, Area>,
    bool,
    bool,
) {
    match e {
        ServerWindowEvent::Created { .. } => {
            let (m1, made) = with_new_area(m, root, e, fetched);
            (m1, made, false)
        },
        ServerWindowEvent::Mapped { window } => {
            let (m1, made) = with_new_area(m, root, e, fetched);
            if has_window(m1, window) {
                let i = window_id(m1, window);
                (m1.insert(i, Area { mapped: true, ..m1[i] }), true, false)
            } else {
                (m1, made, false)
            }
        },
        ServerWindowEvent::Unmapped { window } => if has_window(m, window) {
            let i = window_id(m, window);
            (m.insert(i, Area { mapped: false, ..m[i] }), true, false)
        } else {
            (m, false, false)
        },
        ServerWindowEvent::Destroyed { window } => if has_window(m, window) {
            (m.remove(window_id(m, window)), true, false)
        } else {
            (m, false, false)
        },
        ServerWindowEvent::Configured { window, x, y, width, height } => if has_window(m, window) {
            let i = window_id(m, window);
            (m.insert(i, Area { position: (x, y), size: (width, height), ..m[i] }), true, false)
        } else {
            (m, false, false)
        },
        ServerWindowEvent::Reparented { window, parent } => if has_window(m, window) && has_window(m, parent) {
            (m.remove(window_id(m, window)), true, false)
        } else {
            (m, false, false)
        },
        ServerWindowEvent::ClientMessage => (m, true, false),
        ServerWindowEvent::Damage => (m, false, true),
        ServerWindowEvent::Other => (m, false, false),
    }
}

/// In areas with one area per window, the area of a window is the one
/// `window_id` names.
proof fn lemma_window_id(m: Map<usize, Area>, i: usize)
    requires
        windows_unique(m),
        m.contains_key(i),
    ensures
        window_id(m, m[i].drawable) == i,
{
    let w = m[i].drawable;
    let k = window_id(m, w);
    assert(m.contains_key(k) && m[k].drawable == w);
}

/// The identifier that is free with all the smaller ones taken is the one
/// `first_free_id` names.
proof fn lemma_first_free_id(m: Map<usize, Area>, id: usize)
    requires
        !m.contains_key(id),
        forall|j: usize| j < id ==> m.contains_key(j),
    ensures
        first_free_id(m) == id,
{
    let k = first_free_id(m);
    assert(!m.contains_key(k) && forall|j: usize| j < k ==> m.contains_key(j));
    if k < id {
        assert(m.contains_key(k));
    }
    if id < k {
        assert(m.contains_key(id));
    }
}

proof fn lemma_least_free_from(m: Map<usize, Area>, k: usize, bound: usize)
    requires
        k <= bound,
        forall|i: usize| m.contains_key(i) ==> i < bound,
        forall|j: usize| j < k ==> m.contains_key(j),
    ensures
        !m.contains_key(first_free_id(m)),
        forall|j: usize| j < first_free_id(m) ==> m.contains_key(j),
    decreases bound - k,
{
    if !m.contains_key(k) {
        lemma_first_free_id(m, k);
    } else {
        lemma_least_free_from(m, (k + 1) as usize, bound);
    }
}

/// Law: creating the area of a window. The area is made exactly when the
/// window is not the root, has no area yet, and its attributes could be
/// read (`fetched`); it then takes the least identifier that is free, and
/// nothing else changes; otherwise the areas stay as they were. Either way
/// no two areas are linked to the same window. (`bound` exceeds every
/// identifier in use, as the number of slots of a registry does.)
pub proof fn lemma_create_area(m: Map<usize, Area>, root: u32, window: u32, fetched: Option<Area>, bound: usize)
    requires
        windows_unique(m),
        forall|i: usize| m.contains_key(i) ==> i < bound,
        fetched matches Some(a) ==> a.drawable == window,
    ensures
        ({
            let (m1, made, image) = spec_area_event(m, root, ServerWindowEvent::Created { window }, fetched);
            &&& windows_unique(m1)
            &&& !image
            &&& made <==> (window != root && !has_window(m, window) && fetched is Some)
            &&& made ==> {
                let id = first_free_id(m);
                &&& !m.contains_key(id)
                &&& forall|j: usize| j < id ==> m.contains_key(j)
                &&& m1 == m.insert(id, fetched->0)
            }
            &&& !made ==> m1 == m
        }),
{
    lemma_least_free_from(m, 0, bound);
    let (m1, made, image) = spec_area_event(m, root, ServerWindowEvent::Created { window }, fetched);
    if made {
        let id = first_free_id(m);
        let a = fetched->0;
        assert forall|i: usize, j: usize|
            m1.contains_key(i) && m1.contains_key(j) && i != j implies #[trigger] m1[i].drawable
            != #[trigger] m1[j].drawable by {
            if i == id {
                assert(m.contains_key(j));
                assert(!has_window(m, window));
            } else if j == id {
                assert(m.contains_key(i));
                assert(!has_window(m, window));
            }
        }
    }
}

/// The areas of the known windows.
pub struct AreaRegistry {
    slots: Vec<Option<Area>>,
}

impl View for AreaRegistry {
    type V = Map<usize, Area>;

    closed spec fn view(&self) -> Map<usize, Area> {
        area_map(self.slots@)
    }
}

/// `a` with its fields copied.
fn copy_area(a: &Area) -> (b: Area)
    ensures
        b == *a,
{
    Area {
        drawable: a.drawable,
        position: a.position,
        size: a.size,
        mapped: a.mapped,
        is_app: a.is_app,
        name: a.name.clone(),
    }
}

impl AreaRegistry {
    #[verifier::type_invariant]
    spec fn inv(self) -> bool {
        windows_unique(area_map(self.slots@))
    }

    /// No area.
    pub fn new() -> (r: Self)
        ensures
            r@ == Map::<usize, Area>::empty(),
            windows_unique(r@),
    {
        let r = AreaRegistry { slots: Vec::new() };
        assert(area_map(r.slots@) =~= Map::<usize, Area>::empty());
        r
    }

    /// Number of identifiers in use or free below the highest one.
    pub closed spec fn spec_slot_count(&self) -> nat {
        self.slots@.len()
    }

    /// Number of identifiers in use or free below the highest one.
    pub fn slot_count(&self) -> (n: usize)
        ensures
            n == self.spec_slot_count(),
            forall|i: usize| self@.contains_key(i) ==> i < n,
    {
        self.slots.len()
    }

    /// The updates that tell the client of every area, by identifier.
    pub fn updates(&self) -> (r: Vec<AreaUpdate>)
        ensures
            r@ == area_updates(self@, self.spec_slot_count()),
    {
        let mut r: Vec<AreaUpdate> = Vec::new();
        let mut i: usize = 0;
        while i < self.slots.len()
            invariant
                i <= self.slots@.len(),
                r@ == area_updates(area_map(self.slots@), i as nat),
            decreases self.slots@.len() - i,
        {
            match &self.slots[i] {
                Some(a) => {
                    r.push(
                        AreaUpdate {
                            id: i as u32,
                            x: a.position.0 as i32,
                            y: a.position.1 as i32,
                            width: a.size.0 as u32,
                            height: a.size.1 as u32,
                            mapped: a.mapped,
                            is_app: a.is_app,
                            name: a.name.clone(),
                        },
                    );
                },
                None => {},
            }
            i = i + 1;
        }
        r
    }

    /// The shape rectangles of the mapped areas, by identifier: the part of
    /// a seamless client window that is not transparent.
    pub fn mapped_rectangles(&self) -> (r: Vec<(i16, i16, u16, u16)>)
        ensures
            r@ == mapped_rects(self@, self.spec_slot_count()),
            forall|i: usize| self@.contains_key(i) ==> i < self.spec_slot_count(),
    {
        let mut r: Vec<(i16, i16, u16, u16)> = Vec::new();
        let mut i: usize = 0;
        while i < self.slots.len()
            invariant
                i <= self.slots@.len(),
                r@ == mapped_rects(area_map(self.slots@), i as nat),
            decreases self.slots@.len() - i,
        {
            match &self.slots[i] {
                Some(a) => {
                    if a.mapped {
                        r.push((a.position.0, a.position.1, a.size.0, a.size.1));
                    }
                },
                None => {},
            }
            i = i + 1;
        }
        r
    }

    /// The area of identifier `id`, if any.
    pub fn get(&self, id: usize) -> (r: Option<&Area>)
        ensures
            r matches Some(a) ==> self@.contains_key(id) && *a == self@[id],
            r is None ==> !self@.contains_key(id),
    {
        if id < self.slots.len() {
            match &self.slots[id] {
                Some(a) => Some(a),
                None => None,
            }
        } else {
            None
        }
    }

    /// The identifier of the area of `window`, if it has one.
    pub fn find_window(&self, window: u32) -> (r: Option<usize>)
        ensures
            r matches Some(i) ==> self@.contains_key(i) && self@[i].drawable == window,
            r is None ==> !has_window(self@, window),
    {
        let mut i: usize = 0;
        while i < self.slots.len()
            invariant
                i <= self.slots@.len(),
                forall|j: usize|
                    (j as int) < i && #[trigger] area_map(self.slots@).contains_key(j) ==> area_map(
                        self.slots@,
                    )[j].drawable != window,
            decreases self.slots@.len() - i,
        {
            match &self.slots[i] {
                Some(a) => {
                    if a.drawable == window {
                        return Some(i);
                    }
                },
                None => {},
            }
            i = i + 1;
        }
        None
    }

    /// Whether an area is to be made for `window`: not for the root window,
    /// nor for a window that has one.
    pub fn should_create(&self, root: u32, window: u32) -> (b: bool)
        ensures
            b == (window != root && !has_window(self@, window)),
    {
        if window == root {
            return false;
        }
        self.find_window(window).is_none()
    }

    /// Whether the scan of the screen at start looks at the window `target`,
    /// whose top window is `target_root`: the top window must be one of the
    /// applications `apps` that the window manager lists, and `target` must
    /// not be known yet.
    pub fn scan_wants_app(&self, apps: &[u32], target_root: u32, target: u32) -> (b: bool)
        ensures
            b == (apps@.contains(target_root) && !has_window(self@, target)),
    {
        let mut j: usize = 0;
        let mut listed = false;
        while j < apps.len()
            invariant
                j <= apps@.len(),
                listed == (exists|k: int| 0 <= k < j && apps@[k] == target_root),
            decreases apps@.len() - j,
        {
            if apps[j] == target_root {
                listed = true;
            }
            j = j + 1;
        }
        listed && self.find_window(target).is_none()
    }

    /// Whether the scan of the screen at start looks at the child `window`
    /// of the root window: it must not be known yet, and must be viewable
    /// with its colormap installed.
    pub fn scan_wants_child(&self, window: u32, viewable: bool, installed: bool) -> (b: bool)
        ensures
            b == (!has_window(self@, window) && viewable && installed),
    {
        if !viewable || !installed {
            return false;
        }
        self.find_window(window).is_none()
    }

    /// Adds the area of an application window found by the scan of the
    /// screen at start: only an area larger than one pixel each way, of a
    /// window not known yet, is kept, under the first free identifier.
    pub fn add_scanned_app(&mut self, area: Area) -> (r: Option<usize>)
        ensures
            (area.size.0 > 1 && area.size.1 > 1 && !has_window(old(self)@, area.drawable)) ==> (r matches Some(
                id,
            ) && !old(self)@.contains_key(id) && (forall|j: usize| j < id ==> old(self)@.contains_key(j))
                && final(self)@ == old(self)@.insert(id, area)),
            !(area.size.0 > 1 && area.size.1 > 1 && !has_window(old(self)@, area.drawable)) ==> r is None
                && final(self)@ == old(self)@,
    {
        if area.size.0 > 1 && area.size.1 > 1 && self.find_window(area.drawable).is_none() {
            Some(self.insert_first_free(area))
        } else {
            None
        }
    }

    /// Adds the area of a child of the root window found by the scan of the
    /// screen at start, under the first free identifier, unless its window
    /// is known already.
    pub fn add_scanned_child(&mut self, area: Area) -> (r: Option<usize>)
        ensures
            !has_window(old(self)@, area.drawable) ==> (r matches Some(id) && !old(self)@.contains_key(id)
                && (forall|j: usize| j < id ==> old(self)@.contains_key(j)) && final(self)@ == old(
                self,
            )@.insert(id, area)),
            has_window(old(self)@, area.drawable) ==> r is None && final(self)@ == old(self)@,
    {
        if self.find_window(area.drawable).is_none() {
            Some(self.insert_first_free(area))
        } else {
            None
        }
    }

    /// Gives `area` the first free identifier.
    pub fn insert_first_free(&mut self, area: Area) -> (id: usize)
        requires
            !has_window(old(self)@, area.drawable),
        ensures
            windows_unique(final(self)@),
            !old(self)@.contains_key(id),
            forall|j: usize| j < id ==> old(self)@.contains_key(j),
            final(self)@ == old(self)@.insert(id, area),
    {
        proof {
            use_type_invariant(&*self);
        }
        let ghost m0 = self@;
        let ghost s0 = self.slots@;
        let mut slots: Vec<Option<Area>> = Vec::new();
        std::mem::swap(&mut slots, &mut self.slots);
        assert(area_map(self.slots@) =~= Map::<usize, Area>::empty());
        let mut i: usize = 0;
        while i < slots.len()
            invariant
                slots@ == s0,
                i <= slots@.len(),
                forall|j: int| 0 <= j < i ==> slots@[j] is Some,
            ensures
                slots@ == s0,
                i <= slots@.len(),
                forall|j: int| 0 <= j < i ==> slots@[j] is Some,
                i < slots@.len() ==> slots@[i as int] is None,
            decreases slots@.len() - i,
        {
            if slots[i].is_none() {
                break;
            }
            i = i + 1;
        }
        let ghost d = area.drawable;
        if i < slots.len() {
            slots.set(i, Some(area));
        } else {
            slots.push(Some(area));
        }
        proof {
            assert(area_map(slots@) =~= m0.insert(i, area_map(slots@)[i]));
            assert forall|a: usize, b: usize|
                area_map(slots@).contains_key(a) && area_map(slots@).contains_key(b) && a != b
                    implies #[trigger] area_map(slots@)[a].drawable != #[trigger] area_map(slots@)[b].drawable by {
                if a != i && b != i {
                    assert(m0.contains_key(a) && m0.contains_key(b));
                } else if a == i {
                    assert(m0.contains_key(b));
                    assert(m0[b].drawable != d);
                } else {
                    assert(m0.contains_key(a));
                    assert(m0[a].drawable != d);
                }
            }
        }
        self.slots = slots;
        i
    }

    /// Removes the area of `window`; false when it has none.
    pub fn destroy_area(&mut self, window: u32) -> (removed: bool)
        ensures
            windows_unique(final(self)@),
            removed == has_window(old(self)@, window),
            removed ==> exists|i: usize|
                old(self)@.contains_key(i) && old(self)@[i].drawable == window && final(self)@
                    == old(self)@.remove(i),
            !removed ==> final(self)@ == old(self)@,
    {
        proof {
            use_type_invariant(&*self);
        }
        match self.find_window(window) {
            Some(i) => {
                self.remove_slot(i);
                true
            },
            None => false,
        }
    }

    fn remove_slot(&mut self, id: usize)
        requires
            old(self)@.contains_key(id),
        ensures
            windows_unique(final(self)@),
            final(self)@ == old(self)@.remove(id),
    {
        proof {
            use_type_invariant(&*self);
        }
        let ghost m0 = self@;
        let mut slots: Vec<Option<Area>> = Vec::new();
        std::mem::swap(&mut slots, &mut self.slots);
        assert(area_map(self.slots@) =~= Map::<usize, Area>::empty());
        slots.set(id, None);
        proof {
            assert(area_map(slots@) =~= m0.remove(id));
            assert forall|a: usize, b: usize|
                area_map(slots@).contains_key(a) && area_map(slots@).contains_key(b) && a != b
                    implies #[trigger] area_map(slots@)[a].drawable != #[trigger] area_map(slots@)[b].drawable by {
                assert(m0.contains_key(a) && m0.contains_key(b));
            }
        }
        self.slots = slots;
    }

    fn replace_slot(&mut self, id: usize, area: Area)
        requires
            old(self)@.contains_key(id),
            old(self)@[id].drawable == area.drawable,
        ensures
            windows_unique(final(self)@),
            final(self)@ == old(self)@.insert(id, area),
    {
        proof {
            use_type_invariant(&*self);
        }
        let ghost m0 = self@;
        let mut slots: Vec<Option<Area>> = Vec::new();
        std::mem::swap(&mut slots, &mut self.slots);
        assert(area_map(self.slots@) =~= Map::<usize, Area>::empty());
        let ghost d = area.drawable;
        slots.set(id, Some(area));
        proof {
            assert(area_map(slots@) =~= m0.insert(id, area_map(slots@)[id]));
            assert forall|a: usize, b: usize|
                area_map(slots@).contains_key(a) && area_map(slots@).contains_key(b) && a != b
                    implies #[trigger] area_map(slots@)[a].drawable != #[trigger] area_map(slots@)[b].drawable by {
                assert(m0.contains_key(a) && m0.contains_key(b));
            }
        }
        self.slots = slots;
    }

    /// Marks the area of `window` mapped or not; false when it has none.
    pub fn map_area(&mut self, window: u32, map: bool) -> (found: bool)
        ensures
            windows_unique(final(self)@),
            found == has_window(old(self)@, window),
            found ==> exists|i: usize|
                old(self)@.contains_key(i) && old(self)@[i].drawable == window && final(self)@
                    == old(self)@.insert(i, Area { mapped: map, ..old(self)@[i] }),
            !found ==> final(self)@ == old(self)@,
    {
        proof {
            use_type_invariant(&*self);
        }
        match self.find_window(window) {
            Some(i) => {
                let a = match self.get(i) {
                    Some(a) => copy_area(a),
                    None => {
                        return false;
                    },
                };
                let new_area = Area { mapped: map, ..a };
                self.replace_slot(i, new_area);
                true
            },
            None => false,
        }
    }

    /// Moves and resizes the area of `window`; false when it has none.
    pub fn update_area(&mut self, window: u32, x: i16, y: i16, width: u16, height: u16) -> (found:
        bool)
        ensures
            windows_unique(final(self)@),
            found == has_window(old(self)@, window),
            found ==> exists|i: usize|
                old(self)@.contains_key(i) && old(self)@[i].drawable == window && final(self)@
                    == old(self)@.insert(
                    i,
                    Area { position: (x, y), size: (width, height), ..old(self)@[i] },
                ),
            !found ==> final(self)@ == old(self)@,
    {
        proof {
            use_type_invariant(&*self);
        }
        match self.find_window(window) {
            Some(i) => {
                let a = match self.get(i) {
                    Some(a) => copy_area(a),
                    None => {
                        return false;
                    },
                };
                let new_area = Area { position: (x, y), size: (width, height), ..a };
                self.replace_slot(i, new_area);
                true
            },
            None => false,
        }
    }

    /// A known window was given a known parent: its area goes, the parent
    /// stands for it. False when either is unknown.
    pub fn reparent_window(&mut self, window: u32, parent: u32) -> (removed: bool)
        ensures
            windows_unique(final(self)@),
            removed == (has_window(old(self)@, window) && has_window(old(self)@, parent)),
            removed ==> exists|i: usize|
                old(self)@.contains_key(i) && old(self)@[i].drawable == window && final(self)@
                    == old(self)@.remove(i),
            !removed ==> final(self)@ == old(self)@,
    {
        proof {
            use_type_invariant(&*self);
        }
        let found_window = self.find_window(window);
        let found_parent = self.find_window(parent);
        match (found_window, found_parent) {
            (Some(i), Some(_)) => {
                self.remove_slot(i);
                true
            },
            _ => false,
        }
    }
    /// The window whose attributes must be read from the X server before
    /// the event `e` is taken, if any.
    pub fn area_needed(&self, root: u32, e: &ServerWindowEvent) -> (r: Option<u32>)
        ensures
            r == spec_area_needed(self@, root, *e),
    {
        match e {
            ServerWindowEvent::Created { window } => if self.should_create(root, *window) {
                Some(*window)
            } else {
                None
            },
            ServerWindowEvent::Mapped { window } => if self.should_create(root, *window) {
                Some(*window)
            } else {
                None
            },
            _ => None,
        }
    }

    /// Makes the area `fetched` for the window that needs one.
    fn take_new_area(&mut self, root: u32, e: &ServerWindowEvent, fetched: Option<Area>) -> (made: bool)
        requires
            fetched matches Some(a) ==> spec_area_needed(old(self)@, root, *e) == Some(a.drawable),
        ensures
            (final(self)@, made) == with_new_area(old(self)@, root, *e, fetched),
            windows_unique(final(self)@),
    {
        proof {
            use_type_invariant(&*self);
        }
        if self.area_needed(root, e).is_some() {
            match fetched {
                Some(a) => {
                    let id = self.insert_first_free(a);
                    proof {
                        lemma_first_free_id(old(self)@, id);
                    }
                    true
                },
                None => false,
            }
        } else {
            false
        }
    }

    /// Takes the event `e` of the X server, the attributes of the window
    /// that `area_needed` named being `fetched` (none when they could not
    /// be read): whether the areas changed, and whether the image did.
    pub fn on_event(&mut self, root: u32, e: &ServerWindowEvent, fetched: Option<Area>) -> (r: (bool, bool))
        requires
            fetched matches Some(a) ==> spec_area_needed(old(self)@, root, *e) == Some(a.drawable),
        ensures
            (final(self)@, r.0, r.1) == spec_area_event(old(self)@, root, *e, fetched),
            windows_unique(final(self)@),
    {
        proof {
            use_type_invariant(&*self);
        }
        let ghost m0 = self@;
        match e {
            ServerWindowEvent::Created { .. } => {
                let made = self.take_new_area(root, e, fetched);
                (made, false)
            },
            ServerWindowEvent::Mapped { window } => {
                let made = self.take_new_area(root, e, fetched);
                let ghost m1 = self@;
                let found = self.map_area(*window, true);
                proof {
                    if found {
                        let i = choose|i: usize| m1.contains_key(i) && m1[i].drawable == *window && self@ == m1.insert(
                            i,
                            Area { mapped: true, ..m1[i] },
                        );
                        lemma_window_id(m1, i);
                    }
                }
                (made || found, false)
            },
            ServerWindowEvent::Unmapped { window } => {
                let found = self.map_area(*window, false);
                proof {
                    if found {
                        let i = choose|i: usize| m0.contains_key(i) && m0[i].drawable == *window && self@ == m0.insert(
                            i,
                            Area { mapped: false, ..m0[i] },
                        );
                        lemma_window_id(m0, i);
                    }
                }
                (found, false)
            },
            ServerWindowEvent::Destroyed { window } => {
                let removed = self.destroy_area(*window);
                proof {
                    if removed {
                        let i = choose|i: usize| m0.contains_key(i) && m0[i].drawable == *window && self@ == m0.remove(i);
                        lemma_window_id(m0, i);
                    }
                }
                (removed, false)
            },
            ServerWindowEvent::Configured { window, x, y, width, height } => {
                let found = self.update_area(*window, *x, *y, *width, *height);
                proof {
                    if found {
                        let i = choose|i: usize| m0.contains_key(i) && m0[i].drawable == *window && self@ == m0.insert(
                            i,
                            Area { position: (*x, *y), size: (*width, *height), ..m0[i] },
                        );
                        lemma_window_id(m0, i);
                    }
                }
                (found, false)
            },
            ServerWindowEvent::Reparented { window, parent } => {
                let removed = self.reparent_window(*window, *parent);
                proof {
                    if removed {
                        let i = choose|i: usize| m0.contains_key(i) && m0[i].drawable == *window && self@ == m0.remove(i);
                        lemma_window_id(m0, i);
                    }
                }
                (removed, false)
            },
            ServerWindowEvent::ClientMessage => (true, false),
            ServerWindowEvent::Damage => (false, true),
            ServerWindowEvent::Other => (false, false),
        }
    }
}

} // verus!
