//! What translation and mapping mean: the walk through the four levels of
//! page tables, and the memory that installing a mapping leaves behind.

use vstd::prelude::*;
use crate::addr::{is_frame_start, offset_in_page, table_index, lemma_table_index_bound};
use crate::page_table::{
    compose_entry, entry_address, entry_frame, entry_huge, entry_present, in_table, slot,
    zero_table, lemma_compose_entry, lemma_entry_address_is_frame, FrameError, ADDRESS_MASK,
    HUGE_PAGE, PARENT_FLAGS_MASK, PRESENT,
};

verus! {

/// Where the walk for a virtual address ends.
pub enum Walk {
    /// All four entries are in use; the address translates to this physical
    /// address.
    Mapped(u64),
    /// An entry on the way is not in use.
    NotMapped,
    /// An entry of level 3 or 2 on the way maps a huge page.
    HugePage,
}

/// The walk for `addr` that starts in the table at `table`, a table of
/// `level`. At level 0 `table` is the frame that the address is mapped to.
pub open spec fn walk_from(memory: Map<u64, u64>, table: u64, level: int, addr: u64) -> Walk
    decreases level,
{
    if level <= 0 {
        Walk::Mapped((table + offset_in_page(addr)) as u64)
    } else {
        match entry_frame(memory[slot(table, table_index(addr, level))], level) {
            Ok(next) => walk_from(memory, next, level - 1, addr),
            Err(FrameError::FrameNotPresent) => Walk::NotMapped,
            Err(FrameError::HugeFrame) => Walk::HugePage,
        }
    }
}

/// The walk for `addr` from the level-4 table at `root`.
pub open spec fn walk(memory: Map<u64, u64>, root: u64, addr: u64) -> Walk {
    walk_from(memory, root, 4, addr)
}

/// Why a mapping was not installed.
pub enum MapFailure {
    /// A table was missing and the allocator had no frame for it.
    FrameAllocationFailed,
    /// An entry of level 3 or 2 above the page maps a huge page.
    ParentEntryHugePage,
    /// The page is already mapped, to the frame at this address, which is
    /// not the one asked for.
    PageAlreadyMapped(u64),
}

/// What installing a mapping leaves behind.
pub struct MapOutcome {
    /// Physical memory afterwards.
    pub memory: Map<u64, u64>,
    /// How many frames were taken from the allocator.
    pub taken: nat,
    /// Whether the mapping was installed.
    pub result: Result<(), MapFailure>,
}

/// The flags that the tables above a mapping with `flags` get: always
/// present, and writable or user-accessible where the mapping is.
pub open spec fn parent_flags(flags: u64) -> u64 {
    (flags & PARENT_FLAGS_MASK) | PRESENT
}

/// Installing the mapping of the page at `page` to the frame at `frame`, from
/// the table at `table` of `level` downwards, with `upcoming` the frames that
/// the allocator has to offer.
///
/// In a table of level 4 to 2, an entry in use keeps its address and gains
/// the parent flags; an unused one is pointed to the next frame of the
/// allocator, which is zeroed first. In the table of level 1 the entry is
/// written, unless it is in use for another frame.
pub open spec fn map_from(
    memory: Map<u64, u64>,
    table: u64,
    level: int,
    page: u64,
    frame: u64,
    flags: u64,
    upcoming: Seq<u64>,
) -> MapOutcome
    decreases level,
{
    let at = slot(table, table_index(page, level));
    let entry = memory[at];
    if level <= 1 {
        if entry_present(entry) && entry_address(entry) != frame {
            MapOutcome {
                memory,
                taken: 0,
                result: Err(MapFailure::PageAlreadyMapped(entry_address(entry))),
            }
        } else {
            MapOutcome { memory: memory.insert(at, compose_entry(frame, flags)), taken: 0, result: Ok(()) }
        }
    } else if entry_present(entry) {
        if entry_huge(entry, level) {
            MapOutcome { memory, taken: 0, result: Err(MapFailure::ParentEntryHugePage) }
        } else {
            map_from(
                memory.insert(at, entry | parent_flags(flags)),
                entry_address(entry),
                level - 1,
                page,
                frame,
                flags,
                upcoming,
            )
        }
    } else if upcoming.len() == 0 {
        MapOutcome { memory, taken: 0, result: Err(MapFailure::FrameAllocationFailed) }
    } else {
        let fresh = upcoming[0];
        let rest = map_from(
            zero_table(memory, fresh).insert(at, compose_entry(fresh, parent_flags(flags))),
            fresh,
            level - 1,
            page,
            frame,
            flags,
            upcoming.drop_first(),
        );
        MapOutcome { memory: rest.memory, taken: rest.taken + 1, result: rest.result }
    }
}

/// Installing the mapping from the level-4 table at `root`.
pub open spec fn map_page(
    memory: Map<u64, u64>,
    root: u64,
    page: u64,
    frame: u64,
    flags: u64,
    upcoming: Seq<u64>,
) -> MapOutcome {
    map_from(memory, root, 4, page, frame, flags, upcoming)
}

/// The table of level `reached` that the walk for `addr` passes through when
/// it starts in the table at `table` of `level`, if it gets that far.
pub open spec fn path_from(memory: Map<u64, u64>, table: u64, level: int, addr: u64, reached: int) -> Option<
    u64,
>
    decreases level,
{
    if reached >= level || level <= 1 {
        Some(table)
    } else {
        match entry_frame(memory[slot(table, table_index(addr, level))], level) {
            Ok(next) => path_from(memory, next, level - 1, addr, reached),
            Err(_) => None,
        }
    }
}

/// Whether the frames that mapping `page` from the table at `table` of
/// `level` may take from the allocator are unused. One frame may be taken for
/// each level below `level`, three from level 4. Those first frames of
/// `upcoming` start at a multiple of 4096, differ from one another, and none
/// of them holds a table on the path of `page`.
pub open spec fn frames_unused(
    memory: Map<u64, u64>,
    table: u64,
    level: int,
    page: u64,
    upcoming: Seq<u64>,
) -> bool {
    &&& forall|j: int, k: int|
        0 <= j < k < upcoming.len() && k < level - 1 ==> upcoming[j] != upcoming[k]
    &&& forall|k: int, reached: int|
        0 <= k < upcoming.len() && k < level - 1 && 1 <= reached <= level ==> path_from(
            memory,
            table,
            level,
            page,
            reached,
        ) != Some(upcoming[k])
    &&& forall|k: int| 0 <= k < upcoming.len() && k < level - 1 ==> is_frame_start(upcoming[k])
}

/// Whether two memories lead from every entry to the same frame, at every
/// level.
pub open spec fn same_frames(before: Map<u64, u64>, after: Map<u64, u64>) -> bool {
    forall|addr: u64, level: int|
        1 <= level <= 4 ==> #[trigger] entry_frame(before[addr], level) == entry_frame(
            after[addr],
            level,
        )
}

/// The addresses of one page select the same entries, and differ in the
/// offset alone.
pub proof fn lemma_same_page(page: u64, addr: u64)
    requires
        page % 4096 == 0,
        page <= addr < page + 4096,
    ensures
        forall|level: int| table_index(addr, level) == table_index(page, level),
        offset_in_page(addr) == addr - page,
{
    assert(page % 4096 == 0 && page <= addr && addr - page < 4096 ==> (addr >> 39) & 0x1ff == (page
        >> 39) & 0x1ff) by (bit_vector);
    assert(page % 4096 == 0 && page <= addr && addr - page < 4096 ==> (addr >> 30) & 0x1ff == (page
        >> 30) & 0x1ff) by (bit_vector);
    assert(page % 4096 == 0 && page <= addr && addr - page < 4096 ==> (addr >> 21) & 0x1ff == (page
        >> 21) & 0x1ff) by (bit_vector);
    assert(page % 4096 == 0 && page <= addr && addr - page < 4096 ==> (addr >> 12) & 0x1ff == (page
        >> 12) & 0x1ff) by (bit_vector);
    assert(page % 4096 == 0 && page <= addr && addr - page < 4096 ==> addr & 0xfff == addr - page)
        by (bit_vector);
}

/// Adding parent flags to an entry in use changes neither the frame that it
/// leads to nor whether it maps a huge page.
pub proof fn lemma_parent_flags_keep_frame(entry: u64, flags: u64, level: int)
    requires
        entry_present(entry),
    ensures
        entry_frame(entry | parent_flags(flags), level) == entry_frame(entry, level),
{
    assert(entry & 0x1 == 0x1 ==> (entry | ((flags & 0x7) | 0x1)) & 0x1 == 0x1 && (entry | ((flags
        & 0x7) | 0x1)) & 0x80 == entry & 0x80 && (entry | ((flags & 0x7) | 0x1))
        & 0x000f_ffff_ffff_f000 == entry & 0x000f_ffff_ffff_f000) by (bit_vector);
}

/// The entry that links a new table leads to that table.
pub proof fn lemma_link_leads(fresh: u64, flags: u64, level: int)
    requires
        is_frame_start(fresh),
    ensures
        entry_frame(compose_entry(fresh, parent_flags(flags)), level) == Ok::<u64, FrameError>(
            fresh,
        ),
{
    assert(((flags & 0x7) | 0x1) & 0x000f_ffff_ffff_f000 == 0 && ((flags & 0x7) | 0x1) & 0x1
        == 0x1 && ((flags & 0x7) | 0x1) & 0x80 == 0) by (bit_vector);
    lemma_compose_entry(fresh, parent_flags(flags));
}

/// Of two frames, only the one that holds an entry contains its address.
pub proof fn lemma_slot_in_table(table: u64, index: u16, other: u64)
    requires
        is_frame_start(table),
        is_frame_start(other),
        index < 512,
    ensures
        in_table(other, slot(table, index)) <==> other == table,
{
}

/// Memories that lead from every entry to the same frame give every address
/// the same walk and the same path.
pub proof fn lemma_same_frames_walk(
    before: Map<u64, u64>,
    after: Map<u64, u64>,
    table: u64,
    level: int,
    addr: u64,
)
    requires
        same_frames(before, after),
        0 <= level <= 4,
    ensures
        walk_from(after, table, level, addr) == walk_from(before, table, level, addr),
        forall|reached: int|
            path_from(after, table, level, addr, reached) == path_from(
                before,
                table,
                level,
                addr,
                reached,
            ),
    decreases level,
{
    if level > 0 {
        let at = slot(table, table_index(addr, level));
        assert(entry_frame(before[at], level) == entry_frame(after[at], level));
        match entry_frame(before[at], level) {
            Ok(next) => {
                lemma_same_frames_walk(before, after, next, level - 1, addr);
                assert forall|reached: int|
                    path_from(after, table, level, addr, reached) == path_from(
                        before,
                        table,
                        level,
                        addr,
                        reached,
                    ) by {
                    assert(path_from(after, next, level - 1, addr, reached) == path_from(
                        before,
                        next,
                        level - 1,
                        addr,
                        reached,
                    ));
                }
            },
            Err(_) => {},
        }
    }
}

/// Installing a mapping keeps every entry that was in use leading where it
/// led, provided that no frame taken from the allocator holds that entry.
pub proof fn lemma_map_keeps_entry(
    memory: Map<u64, u64>,
    table: u64,
    level: int,
    page: u64,
    frame: u64,
    flags: u64,
    upcoming: Seq<u64>,
    at: u64,
    seen: int,
    target: u64,
)
    requires
        1 <= level <= 4,
        1 <= seen <= 4,
        is_frame_start(table),
        is_frame_start(frame),
        flags & ADDRESS_MASK == 0,
        flags & PRESENT == PRESENT,
        flags & HUGE_PAGE == 0,
        entry_frame(memory[at], seen) == Ok::<u64, FrameError>(target),
        forall|k: int|
            0 <= k < upcoming.len() && k < level - 1 ==> is_frame_start(upcoming[k]) && !in_table(
                upcoming[k],
                at,
            ),
        map_from(memory, table, level, page, frame, flags, upcoming).result is Ok,
    ensures
        entry_frame(
            map_from(memory, table, level, page, frame, flags, upcoming).memory[at],
            seen,
        ) == Ok::<u64, FrameError>(target),
    decreases level,
{
    let here = slot(table, table_index(page, level));
    let entry = memory[here];
    if level <= 1 {
        if here == at {
            lemma_compose_entry(frame, flags);
        }
    } else if entry_present(entry) {
        lemma_parent_flags_keep_frame(entry, flags, seen);
        lemma_entry_address_is_frame(entry);
        lemma_map_keeps_entry(
            memory.insert(here, entry | parent_flags(flags)),
            entry_address(entry),
            level - 1,
            page,
            frame,
            flags,
            upcoming,
            at,
            seen,
            target,
        );
    } else {
        let fresh = upcoming[0];
        let linked = zero_table(memory, fresh).insert(
            here,
            compose_entry(fresh, parent_flags(flags)),
        );
        assert(linked[at] == memory[at]);
        let rest = upcoming.drop_first();
        assert forall|k: int| 0 <= k < rest.len() && k < level - 2 implies is_frame_start(rest[k])
            && !in_table(rest[k], at) by {
            assert(rest[k] == upcoming[k + 1]);
        }
        lemma_map_keeps_entry(linked, fresh, level - 1, page, frame, flags, rest, at, seen, target);
    }
}

/// Once a mapping is installed from a table downwards, every address of the
/// page walks from that table to the frame, at the same offset.
pub proof fn lemma_map_from_installs(
    memory: Map<u64, u64>,
    table: u64,
    level: int,
    page: u64,
    frame: u64,
    flags: u64,
    upcoming: Seq<u64>,
    addr: u64,
)
    requires
        1 <= level <= 4,
        is_frame_start(table),
        is_frame_start(frame),
        flags & ADDRESS_MASK == 0,
        flags & PRESENT == PRESENT,
        flags & HUGE_PAGE == 0,
        page % 4096 == 0,
        page <= addr < page + 4096,
        frames_unused(memory, table, level, page, upcoming),
        map_from(memory, table, level, page, frame, flags, upcoming).result is Ok,
    ensures
        walk_from(
            map_from(memory, table, level, page, frame, flags, upcoming).memory,
            table,
            level,
            addr,
        ) == Walk::Mapped((frame + (addr - page)) as u64),
    decreases level,
{
    lemma_same_page(page, addr);
    lemma_table_index_bound(page, level);
    let index = table_index(page, level);
    let here = slot(table, index);
    let entry = memory[here];
    let outcome = map_from(memory, table, level, page, frame, flags, upcoming);
    let below = level - 1;
    assert(path_from(memory, table, level, page, level) == Some(table));
    if level <= 1 {
        lemma_compose_entry(frame, flags);
        assert(outcome.memory[here] == compose_entry(frame, flags));
        assert(walk_from(outcome.memory, frame, 0, addr) == Walk::Mapped(
            (frame + (addr - page)) as u64,
        ));
    } else if entry_present(entry) {
        let next = entry_address(entry);
        let updated = memory.insert(here, entry | parent_flags(flags));
        lemma_entry_address_is_frame(entry);
        lemma_parent_flags_keep_frame(entry, flags, level);
        assert(same_frames(memory, updated)) by {
            assert forall|a: u64, l: int| 1 <= l <= 4 implies #[trigger] entry_frame(
                memory[a],
                l,
            ) == entry_frame(updated[a], l) by {
                lemma_parent_flags_keep_frame(entry, flags, l);
            }
        }
        assert forall|k: int, reached: int|
            0 <= k < upcoming.len() && k < below - 1 && 1 <= reached <= below implies #[trigger] path_from(
            updated,
            next,
            below,
            page,
            reached,
        ) != Some(#[trigger] upcoming[k]) by {
            lemma_same_frames_walk(memory, updated, next, below, page);
            assert(path_from(memory, table, level, page, reached) == path_from(
                memory,
                next,
                below,
                page,
                reached,
            ));
        }
        assert forall|k: int| 0 <= k < upcoming.len() && k < level - 2 implies is_frame_start(
            upcoming[k],
        ) && !in_table(upcoming[k], here) by {
            lemma_slot_in_table(table, index, upcoming[k]);
        }
        lemma_map_keeps_entry(
            updated,
            next,
            level - 1,
            page,
            frame,
            flags,
            upcoming,
            here,
            level,
            next,
        );
        lemma_map_from_installs(updated, next, level - 1, page, frame, flags, upcoming, addr);
    } else {
        let fresh = upcoming[0];
        let rest = upcoming.drop_first();
        let linked = zero_table(memory, fresh).insert(
            here,
            compose_entry(fresh, parent_flags(flags)),
        );
        lemma_link_leads(fresh, flags, level);
        lemma_slot_in_table(table, index, fresh);
        assert forall|j: int, k: int| 0 <= j < k < rest.len() && k < level - 2 implies rest[j]
            != rest[k] by {
            assert(rest[j] == upcoming[j + 1] && rest[k] == upcoming[k + 1]);
        }
        assert forall|k: int| 0 <= k < rest.len() && k < level - 2 implies is_frame_start(rest[k])
            && !in_table(rest[k], here) by {
            assert(rest[k] == upcoming[k + 1]);
            lemma_slot_in_table(table, index, rest[k]);
        }
        assert forall|k: int, reached: int|
            0 <= k < rest.len() && k < below - 1 && 1 <= reached <= below implies #[trigger] path_from(
            linked,
            fresh,
            below,
            page,
            reached,
        ) != Some(#[trigger] rest[k]) by {
            assert(rest[k] == upcoming[k + 1]);
            lemma_fresh_table_path(memory, table, index, fresh, flags, below, page, reached);
        }
        lemma_map_keeps_entry(linked, fresh, level - 1, page, frame, flags, rest, here, level, fresh);
        lemma_map_from_installs(linked, fresh, level - 1, page, frame, flags, rest, addr);
    }
}

/// A table that was just zeroed and linked leads nowhere: the path through it
/// ends in it.
pub proof fn lemma_fresh_table_path(
    memory: Map<u64, u64>,
    table: u64,
    index: u16,
    fresh: u64,
    flags: u64,
    level: int,
    addr: u64,
    reached: int,
)
    requires
        is_frame_start(table),
        is_frame_start(fresh),
        fresh != table,
        index < 512,
        1 <= level <= 3,
    ensures
        path_from(
            zero_table(memory, fresh).insert(
                slot(table, index),
                compose_entry(fresh, parent_flags(flags)),
            ),
            fresh,
            level,
            addr,
            reached,
        ) == if reached >= level || level <= 1 {
            Some(fresh)
        } else {
            None::<u64>
        },
{
    lemma_table_index_bound(addr, level);
    let inner = table_index(addr, level);
    lemma_slot_in_table(table, index, fresh);
    lemma_slot_in_table(fresh, inner, fresh);
    let linked = zero_table(memory, fresh).insert(
        slot(table, index),
        compose_entry(fresh, parent_flags(flags)),
    );
    assert(linked[slot(fresh, inner)] == 0);
    assert(0u64 & 0x1 != 0x1) by (bit_vector);
}

/// After a page is mapped to a frame, every address of the page translates
/// to the frame's address plus the offset of the address in the page.
///
/// This holds for flags that mark the entry as in use and not as a huge
/// page, and for an allocator whose frames are unused.
pub proof fn lemma_map_then_translate(
    memory: Map<u64, u64>,
    root: u64,
    page: u64,
    frame: u64,
    flags: u64,
    upcoming: Seq<u64>,
    addr: u64,
)
    requires
        is_frame_start(root),
        is_frame_start(frame),
        page % 4096 == 0,
        page <= addr < page + 4096,
        flags & ADDRESS_MASK == 0,
        flags & PRESENT == PRESENT,
        flags & HUGE_PAGE == 0,
        frames_unused(memory, root, 4, page, upcoming),
        map_page(memory, root, page, frame, flags, upcoming).result is Ok,
    ensures
        walk(map_page(memory, root, page, frame, flags, upcoming).memory, root, addr)
            == Walk::Mapped((frame + (addr - page)) as u64),
{
    lemma_map_from_installs(memory, root, 4, page, frame, flags, upcoming, addr);
}

/// Mapping a page that already translates to another frame fails with that
/// frame, takes nothing from the allocator, and leaves every entry leading
/// where it led.
pub proof fn lemma_map_from_conflict(
    memory: Map<u64, u64>,
    table: u64,
    level: int,
    page: u64,
    frame: u64,
    flags: u64,
    upcoming: Seq<u64>,
    existing: u64,
)
    requires
        1 <= level <= 4,
        page % 4096 == 0,
        walk_from(memory, table, level, page) == Walk::Mapped(existing),
        existing != frame,
    ensures
        map_from(memory, table, level, page, frame, flags, upcoming).result == Err::<
            (),
            MapFailure,
        >(MapFailure::PageAlreadyMapped(existing)),
        map_from(memory, table, level, page, frame, flags, upcoming).taken == 0,
        same_frames(memory, map_from(memory, table, level, page, frame, flags, upcoming).memory),
    decreases level,
{
    let here = slot(table, table_index(page, level));
    let entry = memory[here];
    assert(page % 4096 == 0 ==> page & 0xfff == 0) by (bit_vector);
    if level <= 1 {
        assert(walk_from(memory, entry_address(entry), 0, page) == Walk::Mapped(existing));
    } else {
        let updated = memory.insert(here, entry | parent_flags(flags));
        assert(same_frames(memory, updated)) by {
            assert forall|a: u64, l: int| 1 <= l <= 4 implies #[trigger] entry_frame(
                memory[a],
                l,
            ) == entry_frame(updated[a], l) by {
                lemma_parent_flags_keep_frame(entry, flags, l);
            }
        }
        lemma_same_frames_walk(memory, updated, entry_address(entry), level - 1, page);
        lemma_map_from_conflict(
            updated,
            entry_address(entry),
            level - 1,
            page,
            frame,
            flags,
            upcoming,
            existing,
        );
    }
}

/// Mapping a page that is mapped to another frame reports the conflict and
/// changes no translation: every address walks as it did before.
pub proof fn lemma_remap_conflict(
    memory: Map<u64, u64>,
    root: u64,
    page: u64,
    frame: u64,
    flags: u64,
    upcoming: Seq<u64>,
    existing: u64,
    addr: u64,
)
    requires
        page % 4096 == 0,
        walk(memory, root, page) == Walk::Mapped(existing),
        existing != frame,
    ensures
        map_page(memory, root, page, frame, flags, upcoming).result == Err::<(), MapFailure>(
            MapFailure::PageAlreadyMapped(existing),
        ),
        map_page(memory, root, page, frame, flags, upcoming).taken == 0,
        walk(map_page(memory, root, page, frame, flags, upcoming).memory, root, addr) == walk(
            memory,
            root,
            addr,
        ),
{
    lemma_map_from_conflict(memory, root, 4, page, frame, flags, upcoming, existing);
    lemma_same_frames_walk(
        memory,
        map_page(memory, root, page, frame, flags, upcoming).memory,
        root,
        4,
        addr,
    );
}

/// Once a page is mapped to a frame, mapping it to a different frame fails
/// with the conflict, whatever the second flags and whatever the allocator
/// still offers, and every address of the page still translates into the
/// first frame.
pub proof fn lemma_second_mapping_conflicts(
    memory: Map<u64, u64>,
    root: u64,
    page: u64,
    first: u64,
    first_flags: u64,
    upcoming: Seq<u64>,
    second: u64,
    second_flags: u64,
    later: Seq<u64>,
    addr: u64,
)
    requires
        is_frame_start(root),
        is_frame_start(first),
        page % 4096 == 0,
        page <= addr < page + 4096,
        first_flags & ADDRESS_MASK == 0,
        first_flags & PRESENT == PRESENT,
        first_flags & HUGE_PAGE == 0,
        frames_unused(memory, root, 4, page, upcoming),
        map_page(memory, root, page, first, first_flags, upcoming).result is Ok,
        second != first,
    ensures
        ({
            let mapped = map_page(memory, root, page, first, first_flags, upcoming).memory;
            let again = map_page(mapped, root, page, second, second_flags, later);
            &&& again.result == Err::<(), MapFailure>(MapFailure::PageAlreadyMapped(first))
            &&& walk(again.memory, root, addr) == Walk::Mapped((first + (addr - page)) as u64)
        }),
{
    let mapped = map_page(memory, root, page, first, first_flags, upcoming).memory;
    lemma_map_then_translate(memory, root, page, first, first_flags, upcoming, page);
    lemma_map_then_translate(memory, root, page, first, first_flags, upcoming, addr);
    lemma_remap_conflict(mapped, root, page, second, second_flags, later, first, addr);
}

/// A walk that comes to an entry that is not in use ends there: the address
/// is not mapped, whatever lies below the entry.
pub proof fn lemma_absent_entry_ends_walk(
    memory: Map<u64, u64>,
    table: u64,
    level: int,
    addr: u64,
    reached: int,
)
    requires
        1 <= reached <= level <= 4,
        path_from(memory, table, level, addr, reached) is Some,
        !entry_present(
            memory[slot(
                path_from(memory, table, level, addr, reached)->0,
                table_index(addr, reached),
            )],
        ),
    ensures
        walk_from(memory, table, level, addr) == Walk::NotMapped,
    decreases level,
{
    if reached < level {
        match entry_frame(memory[slot(table, table_index(addr, level))], level) {
            Ok(next) => {
                lemma_absent_entry_ends_walk(memory, next, level - 1, addr, reached);
            },
            Err(_) => {},
        }
    }
}

} // verus!
