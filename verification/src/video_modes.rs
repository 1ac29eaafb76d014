//! The X11 server's video modes: it alternates between two named modes, so
//! that the mode in use is never the one being replaced, and finds modes in
//! the screen resources that the X server returns, where the names of all
//! modes follow each other in one byte table.

use vstd::prelude::*;

verus! {

/// Name of the first of the two modes.
pub open spec fn first_mode_name() -> Seq<char> {
    seq!['v', 'i', 'd', 'e', 'o', '_', 'm', 'o', 'd', 'e', '_', '1']
}

/// Name of the second of the two modes.
pub open spec fn second_mode_name() -> Seq<char> {
    seq!['v', 'i', 'd', 'e', 'o', '_', 'm', 'o', 'd', 'e', '_', '2']
}

/// Name of the mode of slot `index`: the first for slot 0, else the second.
pub fn video_mode_name(index: usize) -> (s: &'static str)
    ensures
        index == 0 ==> s@ == first_mode_name(),
        index != 0 ==> s@ == second_mode_name(),
{
    if index == 0 {
        let s = "video_mode_1";
        proof {
            reveal_strlit("video_mode_1");
        }
        s
    } else {
        let s = "video_mode_2";
        proof {
            reveal_strlit("video_mode_2");
        }
        s
    }
}

/// A change of resolution: the mode of slot `new_index` is made and set,
/// then the mode of slot `old_index` is deleted.
#[derive(Debug, Clone, Copy, PartialEq, Eq)]
pub struct VideoModeSwitch {
    pub old_index: usize,
    pub new_index: usize,
}

/// The switch away from slot `current`.
pub open spec fn spec_next_video_mode(current: usize) -> VideoModeSwitch {
    if current == 0 {
        VideoModeSwitch { old_index: 0, new_index: 1 }
    } else {
        VideoModeSwitch { old_index: 1, new_index: 0 }
    }
}

/// The switch away from slot `current`: from slot 0 to slot 1, from any
/// other slot to slot 0.
pub fn next_video_mode(current: usize) -> (r: VideoModeSwitch)
    ensures
        r == spec_next_video_mode(current),
{
    if current == 0 {
        VideoModeSwitch { old_index: 0, new_index: 1 }
    } else {
        VideoModeSwitch { old_index: 1, new_index: 0 }
    }
}

/// The mode being made is never the one being deleted, the two slots name
/// different modes, and the next switch deletes the mode that this one made
/// and makes again the mode that this one deleted.
pub proof fn lemma_video_modes_alternate(current: usize)
    ensures
        spec_next_video_mode(current).old_index != spec_next_video_mode(current).new_index,
        first_mode_name() != second_mode_name(),
        spec_next_video_mode(spec_next_video_mode(current).new_index).old_index
            == spec_next_video_mode(current).new_index,
        spec_next_video_mode(spec_next_video_mode(current).new_index).new_index
            == spec_next_video_mode(current).old_index,
{
    assert(first_mode_name()[11] != second_mode_name()[11]);
}

/// Offset of the name of mode `k` in the name table, where the names of
/// the modes, of lengths `lens`, follow each other.
pub open spec fn name_offset(lens: Seq<u16>, k: int) -> int
    decreases k,
{
    if k <= 0 {
        0
    } else {
        name_offset(lens, k - 1) + lens[k - 1]
    }
}

/// The name of mode `k`.
pub open spec fn mode_name(lens: Seq<u16>, names: Seq<u8>, k: int) -> Seq<u8> {
    names.subrange(name_offset(lens, k), name_offset(lens, k) + lens[k])
}

/// No mode before `k` is named `name`.
pub open spec fn no_match_before(lens: Seq<u16>, names: Seq<u8>, name: Seq<u8>, k: int) -> bool {
    forall|j: int| 0 <= j < k ==> mode_name(lens, names, j) != name
}

/// The name of each mode that a search for `name` reads lies in the table:
/// that of the first mode so named, and those before it.
pub open spec fn names_readable(lens: Seq<u16>, names: Seq<u8>, name: Seq<u8>) -> bool {
    forall|k: int|
        0 <= k < lens.len() && no_match_before(lens, names, name, k) ==> #[trigger] name_offset(lens, k)
            + lens[k] <= names.len()
}

/// Whether the `len` bytes of `names` from `start` are `name`.
fn bytes_match(names: &[u8], start: usize, len: usize, name: &[u8]) -> (b: bool)
    requires
        start + len <= names@.len(),
    ensures
        b == (names@.subrange(start as int, start + len) == name@),
{
    if len != name.len() {
        proof {
            assert(names@.subrange(start as int, start + len).len() != name@.len());
        }
        return false;
    }
    let total = names.len();
    let mut i: usize = 0;
    while i < len
        invariant
            total == names@.len(),
            len == name@.len(),
            start + len <= names@.len(),
            i <= len,
            forall|j: int| 0 <= j < i ==> names@[start + j] == name@[j],
        decreases len - i,
    {
        if names[start + i] != name[i] {
            proof {
                assert(names@.subrange(start as int, start + len)[i as int] != name@[i as int]);
            }
            return false;
        }
        i = i + 1;
    }
    assert(names@.subrange(start as int, start + len) =~= name@);
    true
}

/// The index of the first mode named `name`, its name compared byte for
/// byte, where the modes have names of lengths `lens` that follow each
/// other in `names`.
pub fn find_mode_by_name(lens: &[u16], names: &[u8], name: &[u8]) -> (r: Option<usize>)
    requires
        names_readable(lens@, names@, name@),
    ensures
        r matches Some(k) ==> k < lens@.len() && mode_name(lens@, names@, k as int) == name@
            && no_match_before(lens@, names@, name@, k as int),
        r is None ==> no_match_before(lens@, names@, name@, lens@.len() as int),
{
    let total = names.len();
    let mut offset: usize = 0;
    let mut i: usize = 0;
    while i < lens.len()
        invariant
            total == names@.len(),
            names_readable(lens@, names@, name@),
            i <= lens@.len(),
            offset == name_offset(lens@, i as int),
            offset <= names@.len(),
            no_match_before(lens@, names@, name@, i as int),
        decreases lens@.len() - i,
    {
        assert(name_offset(lens@, i as int) + lens@[i as int] <= names@.len());
        let len = lens[i] as usize;
        if bytes_match(names, offset, len, name) {
            return Some(i);
        }
        assert(no_match_before(lens@, names@, name@, i + 1)) by {
            assert forall|j: int| 0 <= j < i + 1 implies mode_name(lens@, names@, j) != name@ by {
                if j < i {
                } else {
                    assert(j == i);
                }
            }
        }
        offset = offset + len;
        i = i + 1;
    }
    None
}

/// The size of the last mode of identifier `mode`, where the modes have
/// identifiers `ids` and sizes `sizes`.
pub open spec fn last_mode_size(ids: Seq<u32>, sizes: Seq<(u16, u16)>, mode: u32, n: int) -> Option<
    (u16, u16),
>
    decreases n,
{
    if n <= 0 {
        None
    } else if ids[n - 1] == mode {
        Some(sizes[n - 1])
    } else {
        last_mode_size(ids, sizes, mode, n - 1)
    }
}

/// The size of the mode of identifier `mode`: of the last one if several
/// have it; none if no mode has it.
pub fn find_mode_size(ids: &[u32], sizes: &[(u16, u16)], mode: u32) -> (r: Option<(u16, u16)>)
    requires
        ids@.len() == sizes@.len(),
    ensures
        r == last_mode_size(ids@, sizes@, mode, ids@.len() as int),
{
    let mut found: Option<(u16, u16)> = None;
    let mut i: usize = 0;
    while i < ids.len()
        invariant
            ids@.len() == sizes@.len(),
            i <= ids@.len(),
            found == last_mode_size(ids@, sizes@, mode, i as int),
        decreases ids@.len() - i,
    {
        if ids[i] == mode {
            found = Some(sizes[i]);
        }
        i = i + 1;
    }
    found
}

} // verus!
