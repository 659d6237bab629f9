//! Random numbers and texts.
use rand::distr::SampleString;
use rand::Rng;
use vstd::prelude::*;

verus! {

/// Whether a character is an ASCII letter or digit.
pub open spec fn is_alphanumeric(c: char) -> bool {
    'A' <= c <= 'Z' || 'a' <= c <= 'z' || '0' <= c <= '9'
}

/// Whether a text consists of so many ASCII letters and digits.
pub open spec fn is_random_text(text: Seq<char>, length: nat) -> bool {
    &&& text.len() == length
    &&& forall|i: int| 0 <= i < text.len() ==> is_alphanumeric(#[trigger] text[i])
}

/// `Rng::random` of the crate `rand`, for an array of a hundred integers of 32
/// bits. Nothing is said of the integers, which are random.
#[verifier::external_body]
fn random_array_i32() -> (r: Vec<i32>)
    ensures
        r@.len() == 100,
{
    let numbers: [i32; 100] = rand::rng().random();
    numbers.to_vec()
}

/// `Rng::random` of the crate `rand`, for an array of a hundred integers of 64
/// bits. Nothing is said of the integers, which are random.
#[verifier::external_body]
fn random_array_i64() -> (r: Vec<i64>)
    ensures
        r@.len() == 100,
{
    let numbers: [i64; 100] = rand::rng().random();
    numbers.to_vec()
}

/// `SampleString::sample_string` of the crate `rand` for its distribution
/// `Alphanumeric`: a text of so many ASCII letters and digits. Nothing is said of
/// which they are, as they are random.
#[verifier::external_body]
fn random_text(length: usize) -> (r: String)
    requires
        length <= isize::MAX,
    ensures
        is_random_text(r@, length as nat),
{
    rand::distr::Alphanumeric.sample_string(&mut rand::rng(), length)
}

/// A hundred random integers of 32 bits.
pub fn generate_random_int() -> (r: Vec<i32>)
    ensures
        r@.len() == 100,
{
    random_array_i32()
}

/// A hundred random integers of 64 bits.
pub fn generate_random_bigint() -> (r: Vec<i64>)
    ensures
        r@.len() == 100,
{
    random_array_i64()
}

/// Random texts of ASCII letters and digits, so many and so long; none where the
/// number is negative. No text takes more than `isize::MAX` bytes.
pub fn generate_random_string(num_strings: i32, string_length: usize) -> (r: Vec<String>)
    requires
        string_length <= isize::MAX,
    ensures
        r@.len() == if num_strings > 0 {
            num_strings as int
        } else {
            0
        },
        forall|i: int|
            0 <= i < r@.len() ==> is_random_text((#[trigger] r@[i])@, string_length as nat),
{
    let mut out: Vec<String> = Vec::new();
    let mut i: i32 = 0;
    while i < num_strings
        invariant
            string_length <= isize::MAX,
            i >= 0,
            i <= num_strings || i == 0,
            out@.len() == i,
            forall|k: int|
                0 <= k < out@.len() ==> is_random_text((#[trigger] out@[k])@, string_length as nat),
        decreases num_strings - i,
    {
        out.push(random_text(string_length));
        i += 1;
    }
    out
}

/// A hundred random digests of 64 characters.
pub fn generate_random_digest() -> (r: Vec<String>)
    ensures
        r@.len() == 100,
        forall|i: int| 0 <= i < r@.len() ==> is_random_text((#[trigger] r@[i])@, 64),
{
    generate_random_string(100, 64)
}

/// Random texts are as many and as long as was asked for, and hold letters and digits
/// alone; digests are such texts.
pub proof fn random_texts_are_as_asked_for(
    number: i32,
    length: usize,
    drawn: Vec<String>,
    digests: Vec<String>,
    i: int,
    k: int,
)
    requires
        call_ensures(generate_random_string, (number, length), drawn),
        call_ensures(generate_random_digest, (), digests),
    ensures
        number >= 0 ==> drawn@.len() == number,
        number < 0 ==> drawn@.len() == 0,
        0 <= i < drawn@.len() ==> drawn@[i]@.len() == length,
        0 <= i < drawn@.len() && 0 <= k < length ==> ('0' <= drawn@[i]@[k] <= '9' || 'A'
            <= drawn@[i]@[k] <= 'Z' || 'a' <= drawn@[i]@[k] <= 'z'),
        digests@.len() == 100,
        0 <= i < 100 ==> digests@[i]@.len() == 64,
        0 <= i < 100 && 0 <= k < 64 ==> ('0' <= digests@[i]@[k] <= '9' || 'A' <= digests@[i]@[k]
            <= 'Z' || 'a' <= digests@[i]@[k] <= 'z'),
{
}

/// Random numbers of either width come in the same number.
pub proof fn random_numbers_come_in_hundreds(narrow: Vec<i32>, wide: Vec<i64>)
    requires
        call_ensures(generate_random_int, (), narrow),
        call_ensures(generate_random_bigint, (), wide),
    ensures
        narrow@.len() == 100,
        wide@.len() == narrow@.len(),
{
}

} // verus!
