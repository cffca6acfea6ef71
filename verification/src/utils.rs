//! Small conversions and list helpers shared by the other modules.
use vstd::prelude::*;
use vstd::pervasive::unreached;
use vstd::string::StringExecFns;
use vstd::string::StringSliceAdditionalSpecFns;
use crate::logger::verbose;
use crate::logger::Logger;

verus! {

/// Unwraps a value that must be there.
pub trait CheckError<T>: Sized {
    /// Whether a value is there.
    spec fn good(self) -> bool;

    /// The value that is there.
    spec fn value(self) -> T;

    /// Takes the value out; `action` names what was attempted.
    fn check_err(self, action: &'static str) -> (r: T)
        requires
            self.good(),
        ensures
            r == self.value(),
    ;
}

impl<T> CheckError<T> for Option<T> {
    open spec fn good(self) -> bool {
        self is Some
    }

    open spec fn value(self) -> T {
        self->0
    }

    fn check_err(self, action: &'static str) -> (r: T) {
        match self {
            Some(t) => t,
            None => unreached(),
        }
    }
}

impl<T, E> CheckError<T> for Result<T, E> {
    open spec fn good(self) -> bool {
        self is Ok
    }

    open spec fn value(self) -> T {
        self->Ok_0
    }

    fn check_err(self, action: &'static str) -> (r: T) {
        match self {
            Ok(t) => t,
            Err(_) => unreached(),
        }
    }
}

/// The number that a sequence of decimal digits, given as ASCII bytes,
/// stands for.
pub open spec fn decimal_value(digits: Seq<u8>) -> int
    decreases digits.len(),
{
    if digits.len() == 0 {
        0
    } else {
        decimal_value(digits.drop_last()) * 10 + (digits.last() - 48)
    }
}

/// Every byte is an ASCII digit.
pub open spec fn all_digits(bytes: Seq<u8>) -> bool {
    forall|i: int| 0 <= i < bytes.len() ==> 48 <= #[trigger] bytes[i] <= 57
}

/// A longer prefix of digits never stands for a smaller number.
pub proof fn lemma_decimal_value_monotonic(digits: Seq<u8>, n: int)
    requires
        all_digits(digits),
        0 <= n <= digits.len(),
    ensures
        0 <= decimal_value(digits.take(n)) <= decimal_value(digits),
    decreases digits.len() - n,
{
    if n == digits.len() {
        assert(digits.take(n) =~= digits);
        lemma_decimal_value_nonnegative(digits);
    } else {
        lemma_decimal_value_monotonic(digits, n + 1);
        assert(digits.take(n + 1).drop_last() =~= digits.take(n));
        lemma_decimal_value_nonnegative(digits.take(n));
    }
}

proof fn lemma_decimal_value_nonnegative(digits: Seq<u8>)
    requires
        all_digits(digits),
    ensures
        0 <= decimal_value(digits),
    decreases digits.len(),
{
    if digits.len() > 0 {
        lemma_decimal_value_nonnegative(digits.drop_last());
    }
}

/// Reads a decimal number.
pub fn str_to_u32(s: &str) -> (r: u32)
    requires
        all_digits(s.spec_bytes()),
        decimal_value(s.spec_bytes()) <= u32::MAX,
    ensures
        r == decimal_value(s.spec_bytes()),
{
    let bytes = s.as_bytes();
    let mut num: u32 = 0;
    let mut i: usize = 0;
    proof {
        assert(bytes@.take(0) =~= Seq::<u8>::empty());
    }
    while i < bytes.len()
        invariant
            0 <= i <= bytes.len(),
            all_digits(bytes@),
            decimal_value(bytes@) <= u32::MAX,
            num == decimal_value(bytes@.take(i as int)),
        decreases bytes.len() - i,
    {
        let byte = bytes[i];
        proof {
            assert(bytes@.take(i + 1).drop_last() =~= bytes@.take(i as int));
            lemma_decimal_value_monotonic(bytes@, i + 1);
        }
        let digit = (byte - 48) as u32;
        num = num * 10;
        num = num + digit;
        i += 1;
    }
    proof {
        assert(bytes@.take(i as int) =~= bytes@);
    }
    num
}

/// Drops the top bit and converts to `i32`.
pub fn to_i32(x: u32) -> (r: i32)
    ensures
        r == x % 0x8000_0000,
        x <= i32::MAX ==> r == x,
{
    let low = x & 0x7fff_ffff;
    proof {
        assert(x & 0x7fff_ffff == x % 0x8000_0000) by (bit_vector);
    }
    low as i32
}

/// Converts a length to `u32`.
pub fn to_u32(len: usize) -> (r: u32)
    requires
        len <= u32::MAX,
    ensures
        r == len,
{
    len as u32
}

/// Owned copies of the given strings, in order.
pub fn convert_to_strings(strs: &[&str]) -> (r: Vec<String>)
    ensures
        r.len() == strs.len(),
        forall|i: int| 0 <= i < strs.len() ==> (#[trigger] r[i])@ == strs[i]@,
{
    let mut r: Vec<String> = Vec::new();
    let mut i: usize = 0;
    while i < strs.len()
        invariant
            0 <= i <= strs.len(),
            r.len() == i,
            forall|j: int| 0 <= j < i ==> (#[trigger] r[j])@ == strs[j]@,
        decreases strs.len() - i,
    {
        r.push(strs[i].to_owned());
        i += 1;
    }
    r
}

/// The word whose bytes, least significant first, are `b0` to `b3`.
pub open spec fn le_word(b0: u8, b1: u8, b2: u8, b3: u8) -> int {
    b0 + b1 * 0x100 + b2 * 0x1_0000 + b3 * 0x100_0000
}

/// The word whose bytes, most significant first, are `b0` to `b3`.
pub open spec fn be_word(b0: u8, b1: u8, b2: u8, b3: u8) -> int {
    le_word(b3, b2, b1, b0)
}

/// The word that four bytes form in this machine's byte order.
///
/// Trusted: calls `u32::from_ne_bytes`, which is documented to read the
/// bytes least significant first on a little-endian machine and most
/// significant first on a big-endian one. Which of the two holds is not
/// claimed.
#[verifier::external_body]
fn word_from_ne_bytes(b0: u8, b1: u8, b2: u8, b3: u8) -> (r: u32)
    ensures
        r == le_word(b0, b1, b2, b3) || r == be_word(b0, b1, b2, b3),
{
    u32::from_ne_bytes([b0, b1, b2, b3])
}

/// Word `i` of `words` is made of bytes `4 i` to `4 i + 3` of `bytes`, in
/// one of the two byte orders.
pub open spec fn word_packs(bytes: Seq<u8>, words: Seq<u32>, i: int) -> bool {
    let b0 = bytes[4 * i];
    let b1 = bytes[4 * i + 1];
    let b2 = bytes[4 * i + 2];
    let b3 = bytes[4 * i + 3];
    words[i] == le_word(b0, b1, b2, b3) || words[i] == be_word(b0, b1, b2, b3)
}

/// Packs each group of four bytes into a word in this machine's byte
/// order.
pub fn pack_to_u32s(bytes: &[u8]) -> (r: Vec<u32>)
    requires
        bytes.len() % 4 == 0,
    ensures
        r.len() * 4 == bytes.len(),
        forall|i: int| 0 <= i < r.len() ==> #[trigger] word_packs(bytes@, r@, i),
{
    let mut r: Vec<u32> = Vec::new();
    let mut i: usize = 0;
    while i < bytes.len()
        invariant
            bytes.len() % 4 == 0,
            0 <= i <= bytes.len(),
            i == r.len() * 4,
            forall|j: int| 0 <= j < r.len() ==> #[trigger] word_packs(bytes@, r@, j),
        decreases bytes.len() - i,
    {
        let ghost before = r@;
        let word = word_from_ne_bytes(bytes[i], bytes[i + 1], bytes[i + 2], bytes[i + 3]);
        r.push(word);
        proof {
            assert forall|j: int| 0 <= j < r.len() implies #[trigger] word_packs(bytes@, r@, j) by {
                if j < before.len() {
                    assert(word_packs(bytes@, before, j));
                }
            }
        }
        i += 4;
    }
    r
}

/// The test "differs from `needle`".
pub open spec fn differs_from(needle: u32) -> spec_fn(u32) -> bool {
    |x: u32| x != needle
}

/// The test "is none of `needles`".
pub open spec fn none_of(needles: Seq<u32>) -> spec_fn(u32) -> bool {
    |x: u32| !needles.contains(x)
}

/// The elements of `list` that differ from `needle`, in order.
pub fn list_without_element(list: &[u32], needle: u32) -> (r: Vec<u32>)
    ensures
        r@ == list@.filter(differs_from(needle)),
{
    let mut r: Vec<u32> = Vec::new();
    let mut i: usize = 0;
    proof {
        reveal(Seq::filter);
        assert(list@.take(0) =~= Seq::<u32>::empty());
    }
    while i < list.len()
        invariant
            0 <= i <= list.len(),
            r@ == list@.take(i as int).filter(differs_from(needle)),
        decreases list.len() - i,
    {
        proof {
            reveal(Seq::filter);
            assert(list@.take(i + 1).drop_last() =~= list@.take(i as int));
        }
        if list[i] != needle {
            r.push(list[i]);
        }
        i += 1;
    }
    proof {
        assert(list@.take(i as int) =~= list@);
    }
    r
}

/// Whether `x` occurs in `needles`.
fn is_needle(needles: &[u32], x: u32) -> (r: bool)
    ensures
        r == needles@.contains(x),
{
    let mut i: usize = 0;
    while i < needles.len()
        invariant
            0 <= i <= needles.len(),
            forall|j: int| 0 <= j < i ==> needles[j] != x,
        decreases needles.len() - i,
    {
        if needles[i] == x {
            return true;
        }
        i += 1;
    }
    false
}

/// The elements of `list` that are none of `needles`, in order.
pub fn list_without_elements(list: &[u32], needles: &[u32]) -> (r: Vec<u32>)
    ensures
        r@ == list@.filter(none_of(needles@)),
{
    let mut r: Vec<u32> = Vec::new();
    let mut i: usize = 0;
    proof {
        reveal(Seq::filter);
        assert(list@.take(0) =~= Seq::<u32>::empty());
    }
    while i < list.len()
        invariant
            0 <= i <= list.len(),
            r@ == list@.take(i as int).filter(none_of(needles@)),
        decreases list.len() - i,
    {
        proof {
            reveal(Seq::filter);
            assert(list@.take(i + 1).drop_last() =~= list@.take(i as int));
        }
        if !is_needle(needles, list[i]) {
            r.push(list[i]);
        }
        i += 1;
    }
    proof {
        assert(list@.take(i as int) =~= list@);
    }
    r
}

/// `line` is the item as `format` shows it, indented by four spaces.
pub open spec fn shows<T, F: Fn(&T) -> String>(format: F, item: &T, line: Seq<char>) -> bool {
    exists|text: String| call_ensures(format, (item,), text) && line == "    "@ + text@
}

/// The lines that list the items under a heading: the heading followed by
/// a colon, then every item as `format` shows it, indented by four
/// spaces. Nothing unless the logger is verbose.
pub fn print_item_list<T, F: Fn(&T) -> String>(
    logger: &Logger,
    desc: &'static str,
    items: &[T],
    format: F,
) -> (lines: Vec<String>)
    requires
        forall|i: int| 0 <= i < items.len() ==> call_requires(format, (&#[trigger] items[i],)),
    ensures
        !logger@.verbose ==> lines.len() == 0,
        logger@.verbose ==> lines.len() == items.len() + 1 && lines[0]@ == desc@ + ":"@,
        logger@.verbose ==> forall|i: int|
            0 <= i < items.len() ==> shows(format, &#[trigger] items[i], lines[i + 1]@),
{
    let mut lines: Vec<String> = Vec::new();
    if !verbose(logger) {
        return lines;
    }
    lines.push(desc.to_owned().concat(":"));
    let mut i: usize = 0;
    while i < items.len()
        invariant
            0 <= i <= items.len(),
            lines.len() == i + 1,
            lines[0]@ == desc@ + ":"@,
            forall|k: int| 0 <= k < items.len() ==> call_requires(format, (&#[trigger] items[k],)),
            forall|k: int| 0 <= k < i ==> shows(format, &#[trigger] items[k], lines[k + 1]@),
        decreases items.len() - i,
    {
        let ghost before = lines@;
        let text = format(&items[i]);
        let line = "    ".to_owned().concat(text.as_str());
        lines.push(line);
        proof {
            assert forall|k: int| 0 <= k < i + 1 implies shows(
                format,
                &#[trigger] items[k],
                lines[k + 1]@,
            ) by {
                if k < i {
                    assert(lines[k + 1] == before[k + 1]);
                    assert(shows(format, &items[k], before[k + 1]@));
                } else {
                    assert(call_ensures(format, (&items[k],), text) && lines[k + 1]@ == "    "@
                        + text@);
                }
            }
        }
        i += 1;
    }
    lines
}

} // verus!
