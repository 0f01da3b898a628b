//! The header in front of the storage of a bump allocator.
//!
//! It is a number in memory, in the byte order of the machine.
use crate::mem::Byte;
use vstd::prelude::*;

verus! {

/// The header of a bump allocator.
pub struct Header {
    /// How many bytes of the storage are taken. The first byte that is not taken has this index.
    pub index: usize,
}

impl Header {
    /// The header of an allocator of which nothing is taken.
    pub fn empty() -> (header: Self)
        ensures
            header.index == 0,
    {
        Header { index: 0 }
    }

    /// The number of bytes that a header occupies.
    pub open spec fn spec_size() -> int {
        vstd::layout::size_of::<usize>() as int
    }

    /// The alignment of a header, and so of the allocator that it belongs to.
    pub open spec fn spec_align() -> int {
        vstd::layout::align_of::<usize>() as int
    }

    /// Whether every byte is initialised.
    pub open spec fn readable(bytes: Seq<Byte>) -> bool {
        forall|i: int| 0 <= i < bytes.len() ==> (#[trigger] bytes[i]) is Some
    }

    /// The bytes that a number has in memory, put into the order in which the least significant one
    /// is first; and bytes in that order, put into the order that they have in memory.
    pub open spec fn ordered(bytes: Seq<Byte>) -> Seq<Byte> {
        if vstd::endian::endianness() is Little {
            bytes
        } else {
            bytes.reverse()
        }
    }

    /// The number whose bytes in memory these are.
    pub open spec fn number(bytes: Seq<Byte>) -> nat {
        number_of(Header::ordered(bytes))
    }

    /// The bytes of a header that says that `index` bytes are taken.
    pub open spec fn image(index: int) -> Seq<Byte> {
        Header::ordered(number_bytes(index as nat, Header::spec_size() as nat))
    }

    /// The size of a header is positive and a multiple of its alignment.
    pub proof fn lemma_layout()
        ensures
            0 < Header::spec_align() <= Header::spec_size() <= 8,
            Header::spec_size() % Header::spec_align() == 0,
            vstd::arithmetic::power2::is_pow2(Header::spec_align()),
            vstd::arithmetic::power2::is_pow2(Header::spec_size()),
    {
        broadcast use vstd::layout::group_layout_axioms;

        vstd::layout::usize_size_pow2();
        crate::align::lemma_pow2_positive(Header::spec_align());
        if Header::spec_align() > Header::spec_size() {
            vstd::arithmetic::div_mod::lemma_small_mod(
                Header::spec_size() as nat,
                Header::spec_align() as nat,
            );
        }
    }

    /// A header is read back from its bytes.
    pub proof fn lemma_round_trip(index: int)
        requires
            0 <= index <= usize::MAX,
        ensures
            Header::image(index).len() == Header::spec_size(),
            Header::readable(Header::image(index)),
            Header::number(Header::image(index)) == index,
    {
        let bytes = number_bytes(index as nat, Header::spec_size() as nat);
        vstd::layout::unsigned_int_max_values();
        lemma_number_bytes_shape(index as nat, Header::spec_size() as nat);
        lemma_number_round_trip(index as nat, Header::spec_size() as nat);
        assert(Header::ordered(Header::ordered(bytes)) =~= bytes);
    }

    /// What a header says determines its bytes.
    pub proof fn lemma_image_of_number(bytes: Seq<Byte>)
        requires
            bytes.len() == Header::spec_size(),
            Header::readable(bytes),
        ensures
            Header::image(Header::number(bytes) as int) == bytes,
    {
        lemma_bytes_of_number(Header::ordered(bytes));
        assert(Header::ordered(Header::ordered(bytes)) =~= bytes);
    }
}

/// The number whose bytes these are, the least significant one first.
pub open spec fn number_of(bytes: Seq<Byte>) -> nat
    decreases bytes.len(),
{
    if bytes.len() == 0 {
        0
    } else {
        bytes[0]->Some_0 as nat + 256 * number_of(bytes.drop_first())
    }
}

/// The `n` bytes of a number, the least significant one first.
pub open spec fn number_bytes(x: nat, n: nat) -> Seq<Byte>
    decreases n,
{
    if n == 0 {
        Seq::empty()
    } else {
        seq![Some((x % 256) as u8)] + number_bytes(x / 256, (n - 1) as nat)
    }
}

/// The bytes of a number are as many as asked for, and all of them are initialised.
pub proof fn lemma_number_bytes_shape(x: nat, n: nat)
    ensures
        number_bytes(x, n).len() == n,
        Header::readable(number_bytes(x, n)),
    decreases n,
{
    if n > 0 {
        let rest = number_bytes(x / 256, (n - 1) as nat);
        lemma_number_bytes_shape(x / 256, (n - 1) as nat);
        assert forall|i: int| 0 <= i < number_bytes(x, n).len() implies (#[trigger] number_bytes(
            x,
            n,
        )[i]) is Some by {
            if i > 0 {
                assert(number_bytes(x, n)[i] == rest[i - 1]);
            }
        }
    }
}

/// A number that has room in `n` bytes is read back from them.
pub proof fn lemma_number_round_trip(x: nat, n: nat)
    requires
        x < vstd::arithmetic::power::pow(256, n),
    ensures
        number_of(number_bytes(x, n)) == x,
    decreases n,
{
    reveal(vstd::arithmetic::power::pow);
    if n > 0 {
        let bytes = number_bytes(x, n);
        let rest = number_bytes(x / 256, (n - 1) as nat);
        lemma_number_bytes_shape(x, n);
        lemma_number_round_trip(x / 256, (n - 1) as nat);
        assert(bytes.drop_first() =~= rest);
        assert(bytes[0] == Some((x % 256) as u8));
    }
}

/// The bytes that follow the first ones hold a number that is not larger.
proof fn lemma_tail_not_larger(bytes: Seq<Byte>, i: int)
    requires
        0 <= i <= bytes.len(),
    ensures
        number_of(bytes.skip(i)) <= number_of(bytes),
    decreases i,
{
    if i == 0 {
        assert(bytes.skip(0) =~= bytes);
    } else {
        lemma_tail_not_larger(bytes.drop_first(), i - 1);
        assert(bytes.drop_first().skip(i - 1) =~= bytes.skip(i));
    }
}

/// Initialised bytes are those of the number that they hold.
proof fn lemma_bytes_of_number(bytes: Seq<Byte>)
    requires
        Header::readable(bytes),
    ensures
        number_bytes(number_of(bytes), bytes.len()) == bytes,
    decreases bytes.len(),
{
    if bytes.len() > 0 {
        let rest = bytes.drop_first();
        assert forall|i: int| 0 <= i < rest.len() implies (#[trigger] rest[i]) is Some by {
            assert(bytes[i + 1] is Some);
        }
        lemma_bytes_of_number(rest);
        let x = number_of(bytes);
        assert(bytes[0] is Some);
        assert(x % 256 == bytes[0]->Some_0 as nat && x / 256 == number_of(rest));
        assert(number_bytes(x, bytes.len()) =~= bytes);
    }
}

/// Calls `u16::to_ne_bytes`, which gives the bytes of a number in the order that they have in the
/// memory of this machine: the least significant one first, or last.
#[verifier::external_body]
fn native_bytes(x: u16) -> (bytes: [u8; 2])
    ensures
        bytes@ == if vstd::endian::endianness() is Little {
            seq![(x % 256) as u8, (x / 256) as u8]
        } else {
            seq![(x / 256) as u8, (x % 256) as u8]
        },
{
    x.to_ne_bytes()
}

/// Whether this machine stores the least significant byte of a number first.
fn is_little_endian() -> (r: bool)
    ensures
        r == vstd::endian::endianness() is Little,
{
    let bytes: [u8; 2] = native_bytes(1);
    assert(bytes@[0] == if vstd::endian::endianness() is Little { 1u8 } else { 0u8 });
    bytes[0] == 1
}

/// The bytes of a header, the least significant one first.
fn number_to_bytes(index: usize) -> (bytes: Vec<Byte>)
    ensures
        bytes@ == number_bytes(index as nat, Header::spec_size() as nat),
{
    let size: usize = core::mem::size_of::<usize>();
    let mut bytes: Vec<Byte> = Vec::new();
    let mut rest: usize = index;
    let mut i: usize = 0;
    let ghost all = number_bytes(index as nat, size as nat);
    assert(bytes@ + number_bytes(rest as nat, size as nat) =~= all);
    while i < size
        invariant
            i <= size,
            bytes@ + number_bytes(rest as nat, (size - i) as nat) == all,
        decreases size - i,
    {
        let ghost before = bytes@;
        let ghost tail = number_bytes((rest / 256) as nat, (size - i - 1) as nat);
        bytes.push(Some((rest % 256) as u8));
        assert(before + number_bytes(rest as nat, (size - i) as nat) =~= bytes@ + tail);
        rest = rest / 256;
        i = i + 1;
    }
    assert(bytes@ + number_bytes(rest as nat, 0) =~= bytes@);
    bytes
}

/// Where the byte of a header is in memory, given its significance.
fn position(little: bool, i: usize, size: usize) -> (r: usize)
    requires
        i < size,
    ensures
        r == if little { i as int } else { size - 1 - i },
{
    if little {
        i
    } else {
        size - 1 - i
    }
}

/// Writes a header at the start of a region. The bytes behind it stay as they are.
pub fn encode(header: &Header, bytes: &mut [Byte])
    requires
        old(bytes)@.len() >= Header::spec_size(),
    ensures
        final(bytes)@ == Header::image(header.index as int) + old(bytes)@.skip(Header::spec_size()),
{
    let size: usize = core::mem::size_of::<usize>();
    let little: bool = is_little_endian();
    let number: Vec<Byte> = number_to_bytes(header.index);
    let ghost pre = bytes@;
    let ghost image = Header::image(header.index as int);
    proof {
        lemma_number_bytes_shape(header.index as nat, size as nat);
    }
    assert(bytes@ =~= image.take(0) + pre.skip(0));
    let mut i: usize = 0;
    while i < size
        invariant
            i <= size <= pre.len(),
            size == number@.len(),
            size == image.len(),
            little == vstd::endian::endianness() is Little,
            image == Header::ordered(number@),
            bytes@ == image.take(i as int) + pre.skip(i as int),
        decreases size - i,
    {
        let ghost before = bytes@;
        bytes[i] = number[position(little, i, size)];
        assert(bytes@ =~= image.take(i + 1) + pre.skip(i + 1));
        i = i + 1;
    }
    assert(image.take(size as int) =~= image);
}

/// Reads a header from the bytes that it has at the start of a region.
pub fn decode(bytes: &[Byte]) -> (header: Header)
    requires
        bytes@.len() >= Header::spec_size(),
        Header::readable(bytes@.take(Header::spec_size())),
        Header::number(bytes@.take(Header::spec_size())) <= usize::MAX,
    ensures
        header.index == Header::number(bytes@.take(Header::spec_size())),
{
    let size: usize = core::mem::size_of::<usize>();
    let little: bool = is_little_endian();
    let ghost memory: Seq<Byte> = bytes@.take(size as int);
    let ghost head: Seq<Byte> = Header::ordered(memory);
    let mut index: usize = 0;
    let mut i: usize = size;
    assert(head.skip(size as int) =~= Seq::empty());
    while i > 0
        invariant
            i <= size <= bytes@.len(),
            little == vstd::endian::endianness() is Little,
            memory == bytes@.take(size as int),
            head == Header::ordered(memory),
            Header::readable(memory),
            number_of(head) <= usize::MAX,
            index == number_of(head.skip(i as int)),
        decreases i,
    {
        proof {
            lemma_tail_not_larger(head, i - 1);
            assert(head.skip(i - 1).drop_first() =~= head.skip(i as int));
            assert(head.skip(i - 1)[0] == head[i - 1]);
        }
        i = i - 1;
        let at: usize = position(little, i, size);
        assert(memory[at as int] == head[i as int]);
        match bytes[at] {
            Some(byte) => {
                index = index * 256 + byte as usize;
            },
            None => {
                assert(memory[at as int] is None);
            },
        }
    }
    assert(head.skip(0) =~= head);
    Header { index }
}

/// The bytes of a header are those of a `usize` in the memory of this machine: the one with
/// significance `i` is at index `i`, or at that index counted from the end.
pub proof fn law_header_is_a_number_in_memory(index: int, i: int)
    requires
        0 <= index <= usize::MAX,
        0 <= i < vstd::layout::size_of::<usize>(),
    ensures
        ({
            let size = vstd::layout::size_of::<usize>() as int;
            let at = if vstd::endian::endianness() is Little {
                i
            } else {
                size - 1 - i
            };
            let digit = (index / vstd::arithmetic::power::pow(256, i as nat)) % 256;
            &&& Header::spec_size() == size
            &&& Header::spec_align() == vstd::layout::align_of::<usize>()
            &&& Header::image(index).len() == size
            &&& Header::image(index)[at] == Some(digit as u8)
        }),
{
    lemma_number_bytes_shape(index as nat, Header::spec_size() as nat);
    lemma_digit(index as nat, Header::spec_size() as nat, i as nat);
}

/// A byte of a number is the digit of its significance.
proof fn lemma_digit(x: nat, n: nat, i: nat)
    requires
        i < n,
    ensures
        number_bytes(x, n).len() == n,
        number_bytes(x, n)[i as int] == Some(
            ((x as int / vstd::arithmetic::power::pow(256, i)) % 256) as u8,
        ),
    decreases n,
{
    reveal(vstd::arithmetic::power::pow);
    lemma_number_bytes_shape(x, n);
    if i > 0 {
        let rest = number_bytes(x / 256, (n - 1) as nat);
        let below = vstd::arithmetic::power::pow(256, (i - 1) as nat);
        lemma_digit(x / 256, (n - 1) as nat, (i - 1) as nat);
        assert(number_bytes(x, n)[i as int] == rest[i - 1]);
        vstd::arithmetic::power::lemma_pow_positive(256, (i - 1) as nat);
        vstd::arithmetic::div_mod::lemma_div_denominator(x as int, 256, below);
    }
}

/// Exactly the bytes that were written for a number are read as that number.
pub proof fn law_header_is_read_back(bytes: Seq<Byte>, index: int)
    requires
        0 <= index <= usize::MAX,
        bytes.len() == vstd::layout::size_of::<usize>(),
        forall|i: int| 0 <= i < bytes.len() ==> (#[trigger] bytes[i]) is Some,
    ensures
        Header::readable(bytes),
        Header::number(bytes) == index <==> bytes == Header::image(index),
{
    Header::lemma_round_trip(index);
    Header::lemma_image_of_number(bytes);
}

/// A header that is not initialised throughout cannot be read.
pub proof fn law_uninitialised_header_is_not_readable(bytes: Seq<Byte>, i: int)
    requires
        0 <= i < bytes.len(),
        bytes[i] is None,
    ensures
        !Header::readable(bytes),
{
}

} // verus!
