//! The mathematical model of a bump allocator.
use crate::bump::{Failure, Level};
use crate::layout::Layout;
use crate::mem::Byte;
use vstd::prelude::*;

verus! {

/// The state of a bump allocator: where its storage begins, how much of it is taken, and what the
/// storage holds.
#[verifier::ext_equal]
pub struct Arena {
    /// The address of the first byte of the storage.
    pub base: int,
    /// How many bytes are taken.
    pub level: int,
    /// The contents of the storage.
    pub bytes: Seq<Byte>,
}

/// A block that an allocator hands out.
pub struct Placement {
    /// The address of the block.
    pub addr: int,
    /// The level of the allocator after the block was handed out.
    pub level: int,
}

/// What can be done with an allocator and the blocks that it has handed out.
pub enum Use {
    /// A block is requested on top of `expect` taken bytes.
    Request {
        /// The layout of the block.
        layout: Layout,
        /// The number of bytes.
        expect: int,
    },
    /// A byte is stored.
    Write {
        /// The address.
        addr: int,
        /// The byte.
        byte: Byte,
    },
    /// A block is made to fit another layout.
    Shrink {
        /// The address of the block.
        addr: int,
        /// The size of the block.
        size: int,
        /// The other layout.
        layout: Layout,
    },
}

impl Arena {
    /// The storage has an address throughout, and no more than all of it is taken.
    pub open spec fn wf(self) -> bool {
        &&& 0 < self.base
        &&& self.base + self.bytes.len() <= usize::MAX
        &&& 0 <= self.level <= self.bytes.len()
    }

    /// How many bytes the storage has.
    pub open spec fn capacity(self) -> int {
        self.bytes.len() as int
    }

    /// Where a block would begin, counted from the start of the storage, if `expect` bytes were
    /// taken: at the first aligned address that is free.
    pub open spec fn start(self, layout: Layout, expect: int) -> int {
        crate::align::round_up(self.base + expect, layout.spec_align()) - self.base
    }

    /// Whether a block has room if `expect` bytes are taken.
    pub open spec fn fits(self, layout: Layout, expect: int) -> bool {
        self.start(layout, expect) + layout.spec_size() <= self.capacity()
    }

    /// What comes of asking for a block on top of `expect` taken bytes.
    pub open spec fn request(self, layout: Layout, expect: int) -> Result<Placement, Failure> {
        if !self.fits(layout, expect) {
            Err(Failure::Exhausted)
        } else if self.level != expect {
            Err(Failure::Mismatch { observed: Level(self.level as usize) })
        } else {
            let start = self.start(layout, expect);
            Ok(Placement { addr: self.base + start, level: start + layout.spec_size() })
        }
    }

    /// The state after asking for a block on top of `expect` taken bytes.
    pub open spec fn after(self, layout: Layout, expect: int) -> Arena {
        match self.request(layout, expect) {
            Ok(placement) => self.at_level(placement.level),
            Err(_) => self,
        }
    }

    /// The state with another level.
    pub open spec fn at_level(self, level: int) -> Arena {
        Arena { level, ..self }
    }

    /// The state with the storage at another address.
    pub open spec fn at_base(self, base: int) -> Arena {
        Arena { base, ..self }
    }

    /// The byte at an address.
    pub open spec fn byte_at(self, addr: int) -> Byte {
        self.bytes[addr - self.base]
    }

    /// The state after a byte was stored at an address.
    pub open spec fn written(self, addr: int, byte: Byte) -> Arena {
        Arena { bytes: self.bytes.update(addr - self.base, byte), ..self }
    }

    /// Whether the block of `size` bytes at `addr` holds a block of another layout.
    pub open spec fn shrinks(self, addr: int, size: int, layout: Layout) -> bool {
        crate::align::padding(addr, layout.spec_align()) + layout.spec_size() <= size
    }

    /// The state after a block at `addr` was made to fit another layout: the bytes that the layout
    /// has room for have moved up to the first aligned address.
    pub open spec fn shrunk(self, addr: int, layout: Layout) -> Arena {
        self.moved(
            addr - self.base,
            crate::align::round_up(addr, layout.spec_align()) - self.base,
            layout.spec_size(),
        )
    }

    /// The state after the `len` bytes at index `from` were copied to index `to`.
    pub open spec fn moved(self, from: int, to: int, len: int) -> Arena {
        Arena {
            bytes: Seq::new(
                self.bytes.len(),
                |i: int|
                    if to <= i < to + len {
                        self.bytes[i - to + from]
                    } else {
                        self.bytes[i]
                    },
            ),
            ..self
        }
    }

    /// The state after a number of requests, each for a block at the level of the moment.
    pub open spec fn after_all(self, layouts: Seq<Layout>) -> Arena
        decreases layouts.len(),
    {
        if layouts.len() == 0 {
            self
        } else {
            self.after(layouts[0], self.level).after_all(layouts.drop_first())
        }
    }

    /// Whether this can be a later state of an allocator that was in the state `earlier`, and was
    /// not reset since.
    pub open spec fn follows(self, earlier: Arena) -> bool {
        &&& self.wf()
        &&& self.base == earlier.base
        &&& self.capacity() == earlier.capacity()
        &&& earlier.level <= self.level
    }

    /// The state after one use.
    pub open spec fn used(self, u: Use) -> Arena {
        match u {
            Use::Request { layout, expect } => self.after(layout, expect),
            Use::Write { addr, byte } => self.written(addr, byte),
            Use::Shrink { addr, size, layout } => if self.shrinks(addr, size, layout) {
                self.shrunk(addr, layout)
            } else {
                self
            },
        }
    }

    /// Whether a use keeps to the blocks that were handed out.
    pub open spec fn permits(self, u: Use) -> bool {
        match u {
            Use::Request { layout, .. } => layout.wf(),
            Use::Write { addr, .. } => self.base <= addr < self.base + self.level,
            Use::Shrink { addr, size, layout } => {
                &&& layout.wf()
                &&& self.base <= addr
                &&& layout.spec_size() <= size
                &&& addr + size <= self.base + self.level
            },
        }
    }

    /// The state after a number of uses.
    pub open spec fn after_uses(self, uses: Seq<Use>) -> Arena
        decreases uses.len(),
    {
        if uses.len() == 0 {
            self
        } else {
            self.used(uses[0]).after_uses(uses.drop_first())
        }
    }

    /// Whether a number of uses all keep to the blocks that were handed out.
    pub open spec fn permits_all(self, uses: Seq<Use>) -> bool
        decreases uses.len(),
    {
        uses.len() > 0 ==> {
            &&& self.permits(uses[0])
            &&& self.used(uses[0]).permits_all(uses.drop_first())
        }
    }

    /// Whether every byte that is not taken is zero.
    pub open spec fn is_zeroed_above(self) -> bool {
        forall|i: int| self.level <= i < self.capacity() ==> #[trigger] self.bytes[i] == Some(0u8)
    }
}

/// Whether every layout of a list is one that a caller can have.
pub open spec fn all_wf(layouts: Seq<Layout>) -> bool {
    forall|i: int| 0 <= i < layouts.len() ==> (#[trigger] layouts[i]).wf()
}

/// A block lies in the storage, behind everything that is taken, at an aligned address; and the
/// new level is where it ends.
pub proof fn law_block_in_storage(arena: Arena, layout: Layout, expect: int)
    requires
        arena.wf(),
        layout.wf(),
    ensures
        arena.after(layout, expect).wf(),
        arena.request(layout, expect) matches Ok(block) ==> {
            &&& arena.base + arena.level <= block.addr
            &&& block.addr % layout.spec_align() == 0
            &&& block.addr + layout.spec_size() == arena.base + block.level
            &&& block.level <= arena.capacity()
            &&& arena.after(layout, expect).level == block.level
        },
{
    layout.lemma_bounds();
    crate::align::lemma_padding(arena.base + expect, layout.spec_align());
}

/// A request that fails leaves the allocator as it was.
pub proof fn law_failure_changes_nothing(arena: Arena, layout: Layout, expect: int)
    requires
        arena.request(layout, expect) is Err,
    ensures
        arena.after(layout, expect) == arena,
{
}

/// A request at the level of the moment fails only for want of room.
pub proof fn law_current_level_matches(arena: Arena, layout: Layout)
    ensures
        arena.request(layout, arena.level) is Ok <==> arena.fits(layout, arena.level),
        arena.request(layout, arena.level) matches Err(failure) ==> failure is Exhausted,
{
}

/// Requests move neither the storage nor its contents, and the level never falls.
pub proof fn law_requests_only_raise_the_level(arena: Arena, layouts: Seq<Layout>)
    requires
        arena.wf(),
        all_wf(layouts),
    ensures
        arena.after_all(layouts).wf(),
        arena.after_all(layouts).base == arena.base,
        arena.after_all(layouts).bytes == arena.bytes,
        arena.level <= arena.after_all(layouts).level,
    decreases layouts.len(),
{
    if layouts.len() > 0 {
        assert(layouts[0].wf());
        law_block_in_storage(arena, layouts[0], arena.level);
        layouts[0].lemma_bounds();
        assert forall|i: int| 0 <= i < layouts.drop_first().len() implies (
        #[trigger] layouts.drop_first()[i]).wf() by {
            assert(layouts[i + 1].wf());
        }
        law_requests_only_raise_the_level(
            arena.after(layouts[0], arena.level),
            layouts.drop_first(),
        );
    }
}

/// Whatever is done with an allocator and its blocks, it stays where it is and its level does not
/// fall; and what is not taken stays zeroed, if it was.
pub proof fn law_uses_lead_to_a_later_state(arena: Arena, uses: Seq<Use>)
    requires
        arena.wf(),
        arena.permits_all(uses),
    ensures
        arena.after_uses(uses).follows(arena),
        arena.is_zeroed_above() ==> arena.after_uses(uses).is_zeroed_above(),
    decreases uses.len(),
{
    if uses.len() > 0 {
        let next = arena.used(uses[0]);
        match uses[0] {
            Use::Request { layout, expect } => {
                law_block_in_storage(arena, layout, expect);
                layout.lemma_bounds();
            },
            Use::Write { .. } => {},
            Use::Shrink { addr, size, layout } => {
                layout.lemma_bounds();
                crate::align::lemma_padding(addr, layout.spec_align());
            },
        }
        assert(next.follows(arena));
        law_uses_lead_to_a_later_state(next, uses.drop_first());
    }
}

/// Two blocks do not overlap, whatever is done between them.
pub proof fn law_blocks_are_disjoint(arena: Arena, first: Layout, later: Arena, second: Layout)
    requires
        arena.wf(),
        first.wf(),
        second.wf(),
        later.follows(arena.after(first, arena.level)),
    ensures
        arena.request(first, arena.level) matches Ok(low) ==> later.request(
            second,
            later.level,
        ) matches Ok(high) ==> low.addr + first.spec_size() <= high.addr,
{
    law_block_in_storage(arena, first, arena.level);
    law_block_in_storage(later, second, later.level);
}

/// A request that has no room will have none later, until the allocator is reset.
pub proof fn law_exhaustion_lasts(arena: Arena, layout: Layout, later: Arena)
    requires
        arena.wf(),
        layout.wf(),
        later.follows(arena),
        !arena.fits(layout, arena.level),
    ensures
        !later.fits(layout, later.level),
{
    layout.lemma_bounds();
    crate::align::lemma_round_up_monotone(
        arena.base + arena.level,
        arena.base + later.level,
        layout.spec_align(),
    );
}

/// Whatever was done with an allocator, resetting it makes it answer as it did when nothing was
/// taken; and if nothing was written, it is in the state that it was in.
pub proof fn law_reset_restores(arena: Arena, later: Arena, layout: Layout, expect: int)
    requires
        arena.wf(),
        arena.level == 0,
        later.follows(arena),
    ensures
        later.at_level(0).wf(),
        later.at_level(0).request(layout, expect) == arena.request(layout, expect),
        later.bytes == arena.bytes ==> later.at_level(0) == arena,
{
}

/// In storage that was zeroed at first, every block is zeroed when it is handed out, though the
/// blocks before it were written to and shrunk.
pub proof fn law_zeroed_storage_gives_zeroed_blocks(arena: Arena, uses: Seq<Use>, layout: Layout)
    requires
        arena.wf(),
        arena.bytes == crate::mem::zeroed_bytes(arena.capacity()),
        arena.permits_all(uses),
        layout.wf(),
    ensures
        ({
            let later = arena.after_uses(uses);
            later.request(layout, later.level) matches Ok(block) ==> forall|i: int|
                block.addr <= i < block.addr + layout.spec_size()
                    ==> #[trigger] later.byte_at(i) == Some(0u8)
        }),
{
    law_uses_lead_to_a_later_state(arena, uses);
    let later = arena.after_uses(uses);
    law_block_in_storage(later, layout, later.level);
}

/// Values of one type fill the storage one after the other: the value with index `i` follows `i`
/// others, the level is then the size of them all, and there is room until the storage is full.
pub proof fn law_values_fill_the_storage(arena: Arena, layout: Layout, n: int, i: int)
    requires
        arena.wf(),
        arena.level == 0,
        layout.wf(),
        layout.spec_size() > 0,
        layout.spec_size() % layout.spec_align() == 0,
        arena.base % layout.spec_align() == 0,
        arena.capacity() == n * layout.spec_size(),
        0 <= i <= n,
    ensures
        ({
            let later = arena.after_all(Seq::new(i as nat, |k: int| layout));
            let size = layout.spec_size();
            &&& later == arena.at_level(i * size)
            &&& later.request(layout, later.level) == if i < n {
                Ok::<Placement, Failure>(
                    Placement { addr: arena.base + i * size, level: (i + 1) * size },
                )
            } else {
                Err::<Placement, Failure>(Failure::Exhausted)
            }
        }),
{
    lemma_values_in_sequence(arena, layout, n, 0, i);
    lemma_next_value(arena.at_level(i * layout.spec_size()), layout, n, i);
}

/// The next value lies right behind the ones before it, if there is room.
proof fn lemma_next_value(arena: Arena, layout: Layout, n: int, i: int)
    requires
        arena.wf(),
        layout.wf(),
        layout.spec_size() > 0,
        layout.spec_size() % layout.spec_align() == 0,
        arena.base % layout.spec_align() == 0,
        arena.capacity() == n * layout.spec_size(),
        0 <= i <= n,
        arena.level == i * layout.spec_size(),
    ensures
        arena.request(layout, arena.level) == if i < n {
            Ok::<Placement, Failure>(
                Placement {
                    addr: arena.base + i * layout.spec_size(),
                    level: (i + 1) * layout.spec_size(),
                },
            )
        } else {
            Err::<Placement, Failure>(Failure::Exhausted)
        },
{
    let size = layout.spec_size();
    let align = layout.spec_align();
    layout.lemma_bounds();
    vstd::arithmetic::div_mod::lemma_fundamental_div_mod(size, align);
    assert(i * size == (i * (size / align)) * align) by (nonlinear_arith)
        requires
            size == align * (size / align) + 0,
    ;
    vstd::arithmetic::div_mod::lemma_mod_multiples_basic(i * (size / align), align);
    crate::align::lemma_sum_of_multiples(arena.base, i * size, align);
    crate::align::lemma_padding(arena.base + i * size, align);
    assert((i + 1) * size == i * size + size) by (nonlinear_arith);
    if i < n {
        assert((i + 1) * size <= n * size) by (nonlinear_arith)
            requires
                i + 1 <= n,
                size > 0,
        ;
    }
}

/// After `i` more values than `k` the level is the size of them all.
proof fn lemma_values_in_sequence(arena: Arena, layout: Layout, n: int, k: int, i: int)
    requires
        arena.wf(),
        layout.wf(),
        layout.spec_size() > 0,
        layout.spec_size() % layout.spec_align() == 0,
        arena.base % layout.spec_align() == 0,
        arena.capacity() == n * layout.spec_size(),
        0 <= k,
        0 <= i,
        k + i <= n,
        arena.level == k * layout.spec_size(),
    ensures
        arena.after_all(Seq::new(i as nat, |j: int| layout)) == arena.at_level(
            (k + i) * layout.spec_size(),
        ),
        0 <= (k + i) * layout.spec_size() <= arena.capacity(),
    decreases i,
{
    let size = layout.spec_size();
    assert(0 <= (k + i) * size <= n * size) by (nonlinear_arith)
        requires
            0 <= k + i <= n,
            size > 0,
    ;
    if i > 0 {
        let layouts = Seq::new(i as nat, |j: int| layout);
        lemma_next_value(arena, layout, n, k);
        law_block_in_storage(arena, layout, arena.level);
        lemma_values_in_sequence(arena.after(layout, arena.level), layout, n, k + 1, i - 1);
        assert(layouts.drop_first() =~= Seq::new((i - 1) as nat, |j: int| layout));
    }
}

/// A block that was requested at an aligned level begins at that level; and the level stays below
/// the level of the allocator, whatever is done afterwards.
pub proof fn law_level_leads_back_to_the_block(
    arena: Arena,
    layout: Layout,
    level: int,
    later: Arena,
)
    requires
        arena.wf(),
        layout.wf(),
        layout.spec_size() > 0,
        (arena.base + level) % layout.spec_align() == 0,
        later.follows(arena.after(layout, level)),
    ensures
        arena.request(layout, level) matches Ok(block) ==> {
            &&& block.addr == later.base + level
            &&& 0 <= level < later.capacity()
            &&& level <= later.level
        },
{
    layout.lemma_bounds();
    crate::align::lemma_padding(arena.base + level, layout.spec_align());
    law_block_in_storage(arena, layout, level);
}

/// A block that is requested at the level where another one ended follows it without a gap, but
/// for its alignment, whatever was done in between.
pub proof fn law_expected_level_keeps_blocks_together(
    arena: Arena,
    first: Layout,
    later: Arena,
    second: Layout,
)
    requires
        arena.wf(),
        first.wf(),
        second.wf(),
        later.follows(arena.after(first, arena.level)),
    ensures
        arena.request(first, arena.level) matches Ok(low) ==> later.request(
            second,
            low.level,
        ) matches Ok(high) ==> high.addr == crate::align::round_up(
            low.addr + first.spec_size(),
            second.spec_align(),
        ),
{
    law_block_in_storage(arena, first, arena.level);
}

/// A block that was made to fit another layout lies in the block that it was, at an aligned
/// address; it begins with the bytes that the block began with; and no other byte, nor the level,
/// has changed.
pub proof fn law_shrinking_keeps_the_contents(arena: Arena, addr: int, size: int, layout: Layout)
    requires
        arena.wf(),
        layout.wf(),
        arena.base <= addr,
        addr + size <= arena.base + arena.capacity(),
        arena.shrinks(addr, size, layout),
    ensures
        ({
            let later = arena.shrunk(addr, layout);
            let new = crate::align::round_up(addr, layout.spec_align());
            &&& new % layout.spec_align() == 0
            &&& addr <= new
            &&& new + layout.spec_size() <= addr + size
            &&& later.wf()
            &&& later.base == arena.base
            &&& later.level == arena.level
            &&& forall|i: int|
                new <= i < new + layout.spec_size() ==> #[trigger] later.byte_at(i)
                    == arena.byte_at(i - new + addr)
            &&& forall|i: int|
                arena.base <= i < arena.base + arena.capacity() && !(new <= i < new
                    + layout.spec_size()) ==> #[trigger] later.byte_at(i) == arena.byte_at(i)
        }),
{
    layout.lemma_bounds();
    crate::align::lemma_padding(addr, layout.spec_align());
}

/// A block whose address suits the smaller layout stays where it is, with all its bytes.
pub proof fn law_shrinking_an_aligned_block_changes_nothing(
    arena: Arena,
    addr: int,
    size: int,
    layout: Layout,
)
    requires
        layout.wf(),
        addr % layout.spec_align() == 0,
        layout.spec_size() <= size,
    ensures
        arena.shrinks(addr, size, layout),
        crate::align::round_up(addr, layout.spec_align()) == addr,
        arena.shrunk(addr, layout) == arena,
{
    layout.lemma_bounds();
    crate::align::lemma_padding(addr, layout.spec_align());
    assert(arena.shrunk(addr, layout).bytes =~= arena.bytes);
}

/// A byte that was stored is read back, and no other byte, nor the level, has changed.
pub proof fn law_read_gives_back_what_was_written(arena: Arena, addr: int, byte: Byte)
    requires
        arena.wf(),
        arena.base <= addr < arena.base + arena.capacity(),
    ensures
        arena.written(addr, byte).wf(),
        arena.written(addr, byte).byte_at(addr) == byte,
        forall|other: int|
            arena.base <= other < arena.base + arena.capacity() && other != addr
                ==> #[trigger] arena.written(addr, byte).byte_at(other) == arena.byte_at(other),
        arena.written(addr, byte).level == arena.level,
        arena.written(addr, byte).base == arena.base,
        arena.written(addr, byte).capacity() == arena.capacity(),
{
}

/// What the storage holds decides nothing about requests.
pub proof fn law_contents_do_not_matter_to_requests(
    arena: Arena,
    addr: int,
    byte: Byte,
    layout: Layout,
    expect: int,
)
    requires
        arena.base <= addr < arena.base + arena.capacity(),
    ensures
        arena.written(addr, byte).request(layout, expect) == arena.request(layout, expect),
{
}

/// An allocator that moves by a multiple of an alignment places blocks of that alignment where it
/// would have placed them, counted from the start of its storage. Its level and its contents stay.
pub proof fn law_moving_keeps_offsets(arena: Arena, base: int, layout: Layout, expect: int)
    requires
        layout.wf(),
        (base - arena.base) % layout.spec_align() == 0,
    ensures
        arena.at_base(base).start(layout, expect) == arena.start(layout, expect),
        arena.at_base(base).fits(layout, expect) == arena.fits(layout, expect),
        arena.at_base(base).level == arena.level,
        arena.at_base(base).bytes == arena.bytes,
{
    layout.lemma_bounds();
    crate::align::lemma_round_up_shifts(
        arena.base + expect,
        base - arena.base,
        layout.spec_align(),
    );
}

/// There is room for a block exactly if there is an aligned address for it, behind the `expect`
/// bytes that are taken, such that it ends inside the storage; and the block begins at the first
/// of these addresses.
pub proof fn law_room_is_an_aligned_free_address(arena: Arena, layout: Layout, expect: int)
    requires
        layout.spec_align() > 0,
    ensures
        arena.fits(layout, expect) <==> exists|a: int|
            arena.base + expect <= a && #[trigger] (a % layout.spec_align()) == 0 && a
                + layout.spec_size() <= arena.base + arena.bytes.len(),
        ({
            let first = arena.base + arena.start(layout, expect);
            &&& arena.base + expect <= first
            &&& first % layout.spec_align() == 0
            &&& forall|a: int|
                arena.base + expect <= a && #[trigger] (a % layout.spec_align()) == 0 ==> first <= a
        }),
{
    let align = layout.spec_align();
    let first = arena.base + arena.start(layout, expect);
    assert forall|a: int| arena.base + expect <= a && #[trigger] (a % align) == 0 implies first
        <= a by {
        crate::align::law_round_up_is_the_next_multiple(arena.base + expect, align, a);
    }
    crate::align::law_round_up_is_the_next_multiple(arena.base + expect, align, first);
    assert(first % align == 0);
}

/// A request succeeds exactly if the expected number of bytes is taken and the storage has an
/// aligned free address for the block. The block is at the first such address, and everything up to
/// its end is then taken.
///
/// If there is no such address behind the expected number of bytes it is exhausted, whatever is
/// taken. If there is one, but another number of bytes is taken, that number is reported.
pub proof fn law_request_is_decided_by_room_and_level(arena: Arena, layout: Layout, expect: int)
    requires
        layout.spec_align() > 0,
        0 <= arena.level <= usize::MAX,
    ensures
        ({
            let room = exists|a: int|
                arena.base + expect <= a && #[trigger] (a % layout.spec_align()) == 0 && a
                    + layout.spec_size() <= arena.base + arena.bytes.len();
            match arena.request(layout, expect) {
                Ok(block) => {
                    &&& room
                    &&& expect == arena.level
                    &&& arena.base + arena.level <= block.addr
                    &&& block.addr % layout.spec_align() == 0
                    &&& block.addr + layout.spec_size() <= arena.base + arena.bytes.len()
                    &&& forall|a: int|
                        arena.base + arena.level <= a && #[trigger] (a % layout.spec_align()) == 0
                            ==> block.addr <= a
                    &&& block.level == block.addr + layout.spec_size() - arena.base
                },
                Err(Failure::Exhausted) => !room,
                Err(Failure::Mismatch { observed }) => {
                    &&& room
                    &&& expect != arena.level
                    &&& observed.0 == arena.level
                },
            }
        }),
{
    law_room_is_an_aligned_free_address(arena, layout, expect);
}

/// A block that has an aligned place in what is left of the storage is handed out.
pub proof fn law_whatever_fits_is_handed_out(arena: Arena, layout: Layout, a: int)
    requires
        layout.spec_align() > 0,
        arena.base + arena.level <= a,
        a % layout.spec_align() == 0,
        a + layout.spec_size() <= arena.base + arena.bytes.len(),
    ensures
        arena.request(layout, arena.level) is Ok,
        arena.request(layout, arena.level)->Ok_0.addr <= a,
{
    law_room_is_an_aligned_free_address(arena, layout, arena.level);
}

/// Only the level at which the allocator is leads to a block.
pub proof fn law_only_the_current_level_succeeds(arena: Arena, layout: Layout, expect: int)
    requires
        layout.spec_align() > 0,
        0 <= arena.level <= usize::MAX,
        expect != arena.level,
    ensures
        arena.request(layout, expect) is Err,
        arena.after(layout, expect) == arena,
        forall|a: int|
            arena.base + expect <= a && #[trigger] (a % layout.spec_align()) == 0 && a
                + layout.spec_size() <= arena.base + arena.bytes.len() ==> arena.request(
                layout,
                expect,
            ) == Err::<Placement, Failure>(
                Failure::Mismatch { observed: Level(arena.level as usize) },
            ),
{
    law_room_is_an_aligned_free_address(arena, layout, expect);
}

/// A request takes the bytes up to the end of the block, and nothing else: neither where the
/// storage lies nor what it holds changes, and after a failure nothing has changed.
pub proof fn law_request_changes_the_level_alone(arena: Arena, layout: Layout, expect: int)
    ensures
        arena.after(layout, expect).base == arena.base,
        arena.after(layout, expect).bytes == arena.bytes,
        arena.after(layout, expect).level == match arena.request(layout, expect) {
            Ok(block) => block.level,
            Err(_) => arena.level,
        },
{
}

/// The parts of a state are independent of each other: each can be replaced without the others.
pub proof fn law_parts_of_a_state(arena: Arena, level: int, base: int, addr: int, byte: Byte)
    requires
        arena.base <= addr < arena.base + arena.bytes.len(),
    ensures
        arena.capacity() == arena.bytes.len(),
        arena.at_level(level).level == level,
        arena.at_level(level).base == arena.base,
        arena.at_level(level).bytes == arena.bytes,
        arena.at_base(base).base == base,
        arena.at_base(base).level == arena.level,
        arena.at_base(base).bytes == arena.bytes,
        arena.byte_at(addr) == arena.bytes[addr - arena.base],
        arena.written(addr, byte).base == arena.base,
        arena.written(addr, byte).level == arena.level,
        arena.written(addr, byte).bytes.len() == arena.bytes.len(),
        forall|i: int|
            0 <= i < arena.bytes.len() ==> #[trigger] arena.written(addr, byte).bytes[i] == if i
                == addr - arena.base {
                byte
            } else {
                arena.bytes[i]
            },
{
}

/// A state is one that an allocator can be in if its storage has addresses, none of them null, and
/// no more than all of it is taken.
pub proof fn law_states_of_an_allocator(arena: Arena)
    ensures
        arena.wf() <==> {
            &&& arena.base >= 1
            &&& arena.base + arena.bytes.len() <= usize::MAX
            &&& 0 <= arena.level
            &&& arena.level <= arena.bytes.len()
        },
{
}

/// A block can be made to fit another layout exactly if it has room for it behind some aligned
/// address. It then begins at the first aligned address, its first bytes are those that the block
/// began with, and no other byte, nor anything else of the allocator, has changed.
pub proof fn law_shrinking_is_decided_by_room(arena: Arena, addr: int, size: int, layout: Layout)
    requires
        layout.spec_align() > 0,
        layout.spec_size() >= 0,
        arena.base <= addr,
        addr + size <= arena.base + arena.bytes.len(),
    ensures
        arena.shrinks(addr, size, layout) <==> exists|a: int|
            addr <= a && #[trigger] (a % layout.spec_align()) == 0 && a + layout.spec_size() <= addr
                + size,
        arena.shrinks(addr, size, layout) ==> {
            let later = arena.shrunk(addr, layout);
            exists|new: int|
                {
                    &&& addr <= new
                    &&& #[trigger] (new % layout.spec_align()) == 0
                    &&& new + layout.spec_size() <= addr + size
                    &&& forall|a: int|
                        addr <= a && #[trigger] (a % layout.spec_align()) == 0 ==> new <= a
                    &&& later.base == arena.base
                    &&& later.level == arena.level
                    &&& later.bytes.len() == arena.bytes.len()
                    &&& forall|i: int|
                        0 <= i < arena.bytes.len() ==> #[trigger] later.bytes[i] == if new
                            <= arena.base + i < new + layout.spec_size() {
                            arena.bytes[i - new + addr]
                        } else {
                            arena.bytes[i]
                        }
                }
        },
{
    let align = layout.spec_align();
    let new = crate::align::round_up(addr, align);
    crate::align::law_round_up_is_the_next_multiple(addr, align, new);
    assert(new % align == 0);
    assert forall|a: int| addr <= a && #[trigger] (a % align) == 0 implies new <= a by {
        crate::align::law_round_up_is_the_next_multiple(addr, align, a);
    }
}

} // verus!
