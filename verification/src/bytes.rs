//! Numbers and texts that are stored as bytes.
use vstd::prelude::*;
use vstd::arithmetic::power::{lemma_pow1, lemma_pow0, lemma_pow_adds, lemma_pow_positive, pow};
use vstd::utf8::{decode_utf8, valid_utf8};

verus! {

/// The number that `bytes` writes with its lowest byte first.
pub open spec fn le_value(bytes: Seq<u8>) -> nat
    decreases bytes.len(),
{
    if bytes.len() == 0 {
        0
    } else {
        bytes[0] as nat + 256 * le_value(bytes.skip(1))
    }
}

/// The number that `bytes` writes with its highest byte first.
pub open spec fn be_value(bytes: Seq<u8>) -> nat
    decreases bytes.len(),
{
    if bytes.len() == 0 {
        0
    } else {
        be_value(bytes.drop_last()) * 256 + bytes.last() as nat
    }
}

/// The lower `width` bytes of `n`, the highest byte first.
pub open spec fn be_bytes(n: nat, width: nat) -> Seq<u8>
    decreases width,
{
    if width == 0 {
        Seq::empty()
    } else {
        be_bytes(n / 256, (width - 1) as nat).push((n % 256) as u8)
    }
}

/// The eight bytes of `n`, the highest byte first.
pub fn be_word(n: u64) -> (r: Vec<u8>)
    ensures
        r@ == be_bytes(n as nat, 8),
{
    let n1: u64 = n / 256;
    let n2: u64 = n1 / 256;
    let n3: u64 = n2 / 256;
    let n4: u64 = n3 / 256;
    let n5: u64 = n4 / 256;
    let n6: u64 = n5 / 256;
    let n7: u64 = n6 / 256;
    let mut out: Vec<u8> = Vec::new();
    out.push((n7 % 256) as u8);
    assert(out@ =~= be_bytes((n7 / 256) as nat, 0).push((n7 % 256) as u8));
    assert(out@ == be_bytes(n7 as nat, 1));
    out.push((n6 % 256) as u8);
    assert(out@ == be_bytes(n6 as nat, 2));
    out.push((n5 % 256) as u8);
    assert(out@ == be_bytes(n5 as nat, 3));
    out.push((n4 % 256) as u8);
    assert(out@ == be_bytes(n4 as nat, 4));
    out.push((n3 % 256) as u8);
    assert(out@ == be_bytes(n3 as nat, 5));
    out.push((n2 % 256) as u8);
    assert(out@ == be_bytes(n2 as nat, 6));
    out.push((n1 % 256) as u8);
    assert(out@ == be_bytes(n1 as nat, 7));
    out.push((n % 256) as u8);
    out
}

/// The signed number of 64 bits with the same bits as `n`.
pub open spec fn as_signed(n: nat) -> int {
    if n >= 0x8000_0000_0000_0000 {
        n - 0x1_0000_0000_0000_0000
    } else {
        n as int
    }
}

/// The signed number of 64 bits with the same bits as `n`.
pub fn to_signed(n: u64) -> (r: i64)
    ensures
        r == as_signed(n as nat),
{
    assert(n >= 0x8000_0000_0000_0000 ==> n as i64 == n - 0x1_0000_0000_0000_0000) by (bit_vector);
    n as i64
}

/// The number that the eight bytes of `data` from `at` on write with the lowest
/// byte first.
pub fn read_le(data: &[u8], at: usize) -> (r: u64)
    requires
        at + 8 <= data@.len(),
    ensures
        r == le_value(data@.subrange(at as int, at + 8)),
{
    let r: u64 = data[at] as u64 + 0x100 * data[at + 1] as u64 + 0x1_0000 * data[at + 2] as u64
        + 0x100_0000 * data[at + 3] as u64 + 0x1_0000_0000 * data[at + 4] as u64
        + 0x100_0000_0000 * data[at + 5] as u64 + 0x1_0000_0000_0000 * data[at + 6] as u64
        + 0x100_0000_0000_0000 * data[at + 7] as u64;
    proof {
        reveal_with_fuel(le_value, 9);
    }
    r
}

/// The number that the eight bytes of `data` from `at` on write with the highest
/// byte first.
pub fn read_be(data: &[u8], at: usize) -> (r: u64)
    requires
        at + 8 <= data@.len(),
    ensures
        r == be_value(data@.subrange(at as int, at + 8)),
{
    let r: u64 = 0x100_0000_0000_0000 * data[at] as u64 + 0x1_0000_0000_0000 * data[at + 1] as u64
        + 0x100_0000_0000 * data[at + 2] as u64 + 0x1_0000_0000 * data[at + 3] as u64
        + 0x100_0000 * data[at + 4] as u64 + 0x1_0000 * data[at + 5] as u64
        + 0x100 * data[at + 6] as u64 + data[at + 7] as u64;
    proof {
        reveal_with_fuel(be_value, 9);
    }
    r
}

/// How many bytes of `data` from `at` on have their highest bit set, up to the
/// first that has not.
pub open spec fn run_length(data: Seq<u8>, at: int) -> nat
    decreases data.len() - at,
{
    if at < data.len() && data[at] >= 0x80 {
        1 + run_length(data, at + 1)
    } else {
        0
    }
}

/// How many bytes of `data` from `at` on make up one number in groups of seven
/// bits: those that have their highest bit set, and the one that follows them.
pub open spec fn groups_length(data: Seq<u8>, at: int) -> nat {
    let run = run_length(data, at);
    if at + run < data.len() {
        run + 1
    } else {
        run
    }
}

/// The number that the lower seven bits of each of `bytes` write, the lowest
/// group first.
pub open spec fn groups_value(bytes: Seq<u8>) -> nat
    decreases bytes.len(),
{
    if bytes.len() == 0 {
        0
    } else {
        (bytes[0] % 128) as nat + 128 * groups_value(bytes.skip(1))
    }
}

/// The lower 64 bits of `n`.
pub open spec fn low_word(n: nat) -> u64 {
    (n % 0x1_0000_0000_0000_0000) as u64
}

/// The number in groups of seven bits that stands in `data` at `at`, and where it
/// ends. There is none where ten bytes with their highest bit set follow each
/// other. Data that ends within the number ends the number.
pub open spec fn uvarint(data: Seq<u8>, at: int) -> Option<(u64, int)> {
    if run_length(data, at) >= 10 {
        None
    } else {
        let end = at + groups_length(data, at);
        Some((low_word(groups_value(data.subrange(at, end))), end))
    }
}

/// One more group stands above all groups before it.
pub proof fn lemma_groups_push(bytes: Seq<u8>, b: u8)
    ensures
        groups_value(bytes.push(b)) == groups_value(bytes) + (b % 128) as nat * pow(
            128,
            bytes.len(),
        ) as nat,
    decreases bytes.len(),
{
    lemma_pow0(128);
    lemma_pow1(128);
    lemma_pow_positive(128, bytes.len());
    if bytes.len() == 0 {
        assert(bytes.push(b).skip(1) =~= Seq::<u8>::empty());
        assert(groups_value(Seq::<u8>::empty()) == 0);
    } else {
        lemma_groups_push(bytes.skip(1), b);
        assert(bytes.push(b).skip(1) =~= bytes.skip(1).push(b));
        lemma_pow_adds(128, 1, (bytes.len() - 1) as nat);
        lemma_pow_positive(128, (bytes.len() - 1) as nat);
        let p = pow(128, (bytes.len() - 1) as nat);
        let d = (b % 128) as int;
        assert(128 * (d * p) == d * (128 * p)) by (nonlinear_arith);
    }
}

/// How many of the next ten bytes of `data` from `at` on have their highest bit
/// set, up to the first that has not.
fn short_run(data: &[u8], at: usize) -> (r: usize)
    requires
        at <= data@.len(),
    ensures
        r == if run_length(data@, at as int) < 10 {
            run_length(data@, at as int)
        } else {
            10
        },
        at + r <= data@.len(),
{
    let mut count: usize = 0;
    while count < 10 && count < data.len() - at && data[at + count] >= 0x80
        invariant
            at + count <= data@.len(),
            count <= 10,
            run_length(data@, at as int) == count + run_length(data@, at + count),
        decreases 10 - count,
    {
        count += 1;
    }
    count
}

/// The lower 64 bits of the number that the next `n` bytes of `data` from `at` on
/// write in groups of seven bits.
fn sum_groups(data: &[u8], at: usize, n: usize) -> (r: u64)
    requires
        at + n <= data@.len(),
        n <= 10,
    ensures
        r == low_word(groups_value(data@.subrange(at as int, at + n))),
{
    let mut total: u128 = 0;
    let mut scale: u128 = 1;
    let mut i: usize = 0;
    let size: usize = data.len();
    proof {
        lemma_pow0(128);
        assert(data@.subrange(at as int, at + i) =~= Seq::<u8>::empty());
    }
    while i < n
        invariant
            i <= n <= 10,
            at + n <= size,
            size == data@.len(),
            scale == pow(128, i as nat),
            scale <= 0x40_0000_0000_0000_0000,
            total == groups_value(data@.subrange(at as int, at + i)),
            total < scale,
        decreases n - i,
    {
        let b: u8 = data[at + i];
        proof {
            lemma_groups_push(data@.subrange(at as int, at + i), b);
            assert(data@.subrange(at as int, at + i).push(b) =~= data@.subrange(
                at as int,
                at + i + 1,
            ));
            lemma_pow1(128);
            lemma_pow_adds(128, i as nat, 1);
            lemma_scale_bound(i as nat + 1);
            assert((b % 128) * scale <= 127 * scale) by (nonlinear_arith)
                requires
                    b % 128 <= 127,
                    scale >= 0,
            ;
        }
        total = total + (b % 128) as u128 * scale;
        scale = scale * 128;
        i += 1;
    }
    (total % 0x1_0000_0000_0000_0000) as u64
}

proof fn lemma_scale_bound(count: nat)
    requires
        count <= 10,
    ensures
        pow(128, count) <= 0x40_0000_0000_0000_0000,
{
    reveal_with_fuel(pow, 12);
}

/// The number in groups of seven bits that stands in `data` at `at`, and where it
/// ends.
pub fn read_uvarint(data: &[u8], at: usize) -> (r: Option<(u64, usize)>)
    requires
        at <= data@.len(),
    ensures
        match r {
            Some((n, end)) => uvarint(data@, at as int) == Some((n, end as int)) && at <= end
                <= data@.len(),
            None => uvarint(data@, at as int) is None,
        },
{
    let run = short_run(data, at);
    if run >= 10 {
        return None;
    }
    let n: usize = if run < data.len() - at { run + 1 } else { run };
    Some((sum_groups(data, at, n), at + n))
}

/// A number in groups of seven bits of at most ten bytes, as the length of a
/// compact byte array is written.
pub enum LengthPrefix {
    /// The data ends within the number.
    CutOff,
    /// The number has more than 64 bits, or ten bytes do not bring its last group.
    TooLong,
    /// The number, and how many bytes it takes.
    Word(u64, usize),
}

/// The number of at most ten groups that stands in `data` at `at`.
pub open spec fn length_prefix(data: Seq<u8>, at: int) -> LengthPrefix {
    let run = run_length(data, at);
    if run >= 10 {
        LengthPrefix::TooLong
    } else if at + run >= data.len() {
        LengthPrefix::CutOff
    } else if run == 9 && data[at + 9] > 1 {
        LengthPrefix::TooLong
    } else {
        LengthPrefix::Word(
            low_word(groups_value(data.subrange(at, at + run + 1))),
            (run + 1) as usize,
        )
    }
}

/// The number of at most ten groups that stands in `data` at `at`.
pub fn read_length_prefix(data: &[u8], at: usize) -> (r: LengthPrefix)
    requires
        at <= data@.len(),
    ensures
        r == length_prefix(data@, at as int),
        r matches LengthPrefix::Word(_, taken) ==> 0 < taken <= 10 && at + taken <= data@.len(),
{
    let room: usize = data.len() - at;
    let run = short_run(data, at);
    if run >= 10 {
        LengthPrefix::TooLong
    } else if run >= room {
        LengthPrefix::CutOff
    } else if run == 9 && data[at + 9] > 1 {
        LengthPrefix::TooLong
    } else {
        LengthPrefix::Word(sum_groups(data, at, run + 1), run + 1)
    }
}

/// The bytes of `data` from `from` up to `to`.
pub fn slice_of(data: &[u8], from: usize, to: usize) -> (r: Vec<u8>)
    requires
        from <= to <= data@.len(),
    ensures
        r@ == data@.subrange(from as int, to as int),
{
    vstd::slice::slice_to_vec(vstd::slice::slice_subrange(data, from, to))
}

/// The text that `bytes` stands for, where each part that is no UTF-8 is
/// replaced by the replacement character.
pub uninterp spec fn repaired_utf8(bytes: Seq<u8>) -> Seq<char>;

/// The text that `bytes` stands for: what they encode in UTF-8, or else what is
/// left of them when each part that is no UTF-8 is replaced.
pub open spec fn lossy_text(bytes: Seq<u8>) -> Seq<char> {
    if valid_utf8(bytes) {
        decode_utf8(bytes)
    } else {
        repaired_utf8(bytes)
    }
}

/// `String::from_utf8_lossy` gives the text that the bytes encode in UTF-8, and of
/// bytes that are no UTF-8 a text that depends on them alone.
#[verifier::external_body]
fn string_from_utf8_lossy(bytes: &[u8]) -> (r: String)
    ensures
        valid_utf8(bytes@) ==> r@ == decode_utf8(bytes@),
        !valid_utf8(bytes@) ==> r@ == repaired_utf8(bytes@),
{
    String::from_utf8_lossy(bytes).to_string()
}

/// The text that `bytes` stands for.
pub fn to_lossy_text(bytes: &[u8]) -> (r: String)
    ensures
        r@ == lossy_text(bytes@),
{
    string_from_utf8_lossy(bytes)
}

/// `std::str::from_utf8` succeeds on valid UTF-8 and nothing else, and gives the
/// text that the bytes encode.
#[verifier::external_body]
pub(crate) fn utf8_text(bytes: &[u8]) -> (r: Option<&str>)
    ensures
        match r {
            Some(s) => valid_utf8(bytes@) && s@ == decode_utf8(bytes@),
            None => !valid_utf8(bytes@),
        },
{
    std::str::from_utf8(bytes).ok()
}

} // verus!
