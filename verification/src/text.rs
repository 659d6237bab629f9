//! Text: searching, reading and writing of strings.
//!
//! A string is specified by its view, the sequence of its characters.
use vstd::prelude::*;
use vstd::string::*;

verus! {

/// `String::push` adds one character to the end of a string.
pub assume_specification[ String::push ](s: &mut String, c: char)
    ensures
        final(s)@ == old(s)@.push(c),
;

/// The characters of `s`, in order.
pub fn chars_of(s: &str) -> (r: Vec<char>)
    ensures
        r@ == s@,
{
    let mut out: Vec<char> = Vec::new();
    for c in iter: s.chars()
        invariant
            iter.seq() == s@,
            out@ == s@.take(iter.index()),
    {
        assert(s@.take(iter.index() + 1) =~= s@.take(iter.index()).push(c));
        out.push(c);
    }
    assert(s@.take(s@.len() as int) =~= s@);
    out
}

/// Whether two strings hold the same characters.
pub fn same(a: &str, b: &str) -> (r: bool)
    ensures
        r == (a@ == b@),
{
    let x = chars_of(a);
    let y = chars_of(b);
    if x.len() != y.len() {
        return false;
    }
    let mut i: usize = 0;
    while i < x.len()
        invariant
            x@ == a@,
            y@ == b@,
            x@.len() == y@.len(),
            i <= x@.len(),
            forall|k: int| 0 <= k < i ==> x@[k] == y@[k],
        decreases x@.len() - i,
    {
        if x[i] != y[i] {
            return false;
        }
        i += 1;
    }
    assert(x@ =~= y@);
    true
}

/// Whether `part` occurs in `whole` at position `at`.
pub open spec fn occurs_at(whole: Seq<char>, part: Seq<char>, at: int) -> bool {
    &&& 0 <= at
    &&& at + part.len() <= whole.len()
    &&& whole.subrange(at, at + part.len()) == part
}

/// Whether `part` occurs anywhere in `whole`.
pub open spec fn has_part(whole: Seq<char>, part: Seq<char>) -> bool {
    exists|at: int| occurs_at(whole, part, at)
}

/// Whether `whole` ends with `part`.
pub open spec fn has_suffix(whole: Seq<char>, part: Seq<char>) -> bool {
    whole.len() >= part.len() && whole.subrange(whole.len() - part.len(), whole.len() as int)
        == part
}

/// Whether `whole` begins with `part`.
pub open spec fn has_prefix(whole: Seq<char>, part: Seq<char>) -> bool {
    occurs_at(whole, part, 0)
}

fn part_at(whole: &Vec<char>, part: &Vec<char>, at: usize) -> (r: bool)
    requires
        at <= whole@.len(),
    ensures
        r == occurs_at(whole@, part@, at as int),
{
    let room: usize = whole.len() - at;
    if room < part.len() {
        return false;
    }
    let mut i: usize = 0;
    while i < part.len()
        invariant
            at + room == whole@.len(),
            at + room <= usize::MAX,
            part@.len() <= room,
            i <= part@.len(),
            forall|k: int| 0 <= k < i ==> whole@[at + k] == part@[k],
        decreases part@.len() - i,
    {
        if whole[at + i] != part[i] {
            assert(whole@.subrange(at as int, at + part@.len())[i as int] != part@[i as int]);
            return false;
        }
        i += 1;
    }
    assert(whole@.subrange(at as int, at + part@.len()) =~= part@);
    true
}

/// Whether `whole` begins with `part`.
pub fn starts_with(whole: &str, part: &str) -> (r: bool)
    ensures
        r == has_prefix(whole@, part@),
{
    part_at(&chars_of(whole), &chars_of(part), 0)
}

/// Whether `part` occurs anywhere in `whole`.
pub fn contains(whole: &str, part: &str) -> (r: bool)
    ensures
        r == has_part(whole@, part@),
{
    let w = chars_of(whole);
    let p = chars_of(part);
    let mut at: usize = 0;
    while at < w.len()
        invariant
            w@ == whole@,
            p@ == part@,
            at <= w@.len(),
            forall|k: int| 0 <= k < at ==> !occurs_at(whole@, part@, k),
        decreases w@.len() - at,
    {
        if part_at(&w, &p, at) {
            return true;
        }
        at += 1;
    }
    part_at(&w, &p, at)
}

/// The character that writes the decimal digit `d`.
pub open spec fn digit(d: int) -> char {
    (48 + d) as char
}

/// Whether `c` is a decimal digit.
pub open spec fn is_digit(c: char) -> bool {
    '0' <= c <= '9'
}

/// `n` in decimal notation, without leading zeros.
pub open spec fn decimal(n: nat) -> Seq<char>
    decreases n,
{
    if n < 10 {
        seq![digit(n as int)]
    } else {
        decimal(n / 10).push(digit((n % 10) as int))
    }
}

/// `n` in decimal notation, with a minus sign where it is negative.
pub open spec fn signed_decimal(n: int) -> Seq<char> {
    if n < 0 {
        seq!['-'] + decimal((-n) as nat)
    } else {
        decimal(n as nat)
    }
}

/// `n` in decimal notation, filled up with zeros on the left to `width`
/// characters.
pub open spec fn padded(n: nat, width: nat) -> Seq<char> {
    let plain = decimal(n);
    if plain.len() < width {
        Seq::new((width - plain.len()) as nat, |i: int| '0') + plain
    } else {
        plain
    }
}

/// The number that a sequence of decimal digits writes.
pub open spec fn digits_value(s: Seq<char>) -> nat
    decreases s.len(),
{
    if s.len() == 0 {
        0
    } else {
        digits_value(s.drop_last()) * 10 + (s.last() as nat - 48) as nat
    }
}

/// Whether every character of `s` is a decimal digit.
pub open spec fn all_digits(s: Seq<char>) -> bool {
    forall|i: int| 0 <= i < s.len() ==> is_digit(#[trigger] s[i])
}

/// The integer between `low` and `high` that `text` writes: decimal digits, at
/// least one, after an optional plus sign or, where `signed`, an optional minus
/// sign.
pub open spec fn integer_in(text: Seq<char>, signed: bool, low: int, high: int) -> Option<int> {
    let plus = text.len() > 0 && text[0] == '+';
    let minus = signed && text.len() > 0 && text[0] == '-';
    let body = if plus || minus { text.skip(1) } else { text };
    let value = if minus { -(digits_value(body) as int) } else { digits_value(body) as int };
    if body.len() == 0 || !all_digits(body) || value < low || value > high {
        None
    } else {
        Some(value)
    }
}

fn digit_char(d: u8) -> (r: char)
    requires
        d < 10,
    ensures
        r == digit(d as int),
{
    (48u8 + d) as char
}

/// Adds `n` in decimal notation to the end of `out`.
pub fn append_decimal(out: &mut String, n: u64)
    ensures
        final(out)@ == old(out)@ + decimal(n as nat),
    decreases n,
{
    if n >= 10 {
        append_decimal(out, n / 10);
    }
    out.push(digit_char((n % 10) as u8));
    assert(out@ =~= old(out)@ + decimal(n as nat));
}

/// Adds `n` in decimal notation, with a minus sign where it is negative, to the
/// end of `out`.
pub fn append_signed(out: &mut String, n: i64)
    ensures
        final(out)@ == old(out)@ + signed_decimal(n as int),
{
    if n < 0 {
        out.push('-');
        let size: u64 = if n == i64::MIN { 0x8000_0000_0000_0000u64 } else { (-n) as u64 };
        append_decimal(out, size);
        assert(out@ =~= old(out)@ + signed_decimal(n as int));
    } else {
        append_decimal(out, n as u64);
    }
}

/// `n` in decimal notation.
pub fn decimal_text(n: u64) -> (r: String)
    ensures
        r@ == decimal(n as nat),
{
    let mut out = String::new();
    append_decimal(&mut out, n);
    assert(out@ =~= decimal(n as nat));
    out
}

/// `n` in decimal notation, with a minus sign where it is negative.
pub fn signed_text(n: i64) -> (r: String)
    ensures
        r@ == signed_decimal(n as int),
{
    let mut out = String::new();
    append_signed(&mut out, n);
    assert(out@ =~= signed_decimal(n as int));
    out
}

/// Adds `n` in decimal notation, filled up with zeros on the left to `width`
/// characters, to the end of `out`.
pub fn append_padded(out: &mut String, n: u64, width: usize)
    ensures
        final(out)@ == old(out)@ + padded(n as nat, width as nat),
{
    let plain = chars_of(decimal_text(n).as_str());
    let mut i: usize = plain.len();
    while i < width
        invariant
            plain@ == decimal(n as nat),
            plain@.len() <= i,
            i <= width || i == plain@.len(),
            out@ == old(out)@ + Seq::new((i - plain@.len()) as nat, |k: int| '0'),
        decreases width - i,
    {
        out.push('0');
        i += 1;
        assert(out@ =~= old(out)@ + Seq::new((i - plain@.len()) as nat, |k: int| '0'));
    }
    append_decimal(out, n);
    assert(out@ =~= old(out)@ + padded(n as nat, width as nat));
}

/// The integer between `low` and `high` that `text` writes, as `integer_in`
/// describes it.
pub fn parse_integer(text: &str, signed: bool, low: i128, high: i128) -> (r: Option<i128>)
    requires
        -0x1_0000_0000_0000_0000 <= low,
        high <= 0x1_0000_0000_0000_0000,
    ensures
        match r {
            Some(v) => integer_in(text@, signed, low as int, high as int) == Some(v as int),
            None => integer_in(text@, signed, low as int, high as int) is None,
        },
{
    let all = chars_of(text);
    let plus = all.len() > 0 && all[0] == '+';
    let minus = signed && all.len() > 0 && all[0] == '-';
    let start: usize = if plus || minus { 1 } else { 0 };
    let ghost body = all@.skip(start as int);
    assert(!(plus || minus) ==> body =~= text@);
    if start == all.len() {
        return None;
    }
    let mut total: i128 = 0;
    let mut i: usize = start;
    while i < all.len()
        invariant
            all@ == text@,
            plus == (text@.len() > 0 && text@[0] == '+'),
            minus == (signed && text@.len() > 0 && text@[0] == '-'),
            start == if plus || minus { 1int } else { 0int },
            start <= i <= all@.len(),
            !(plus || minus) ==> body == text@,
            body == all@.skip(start as int),
            all_digits(body.take(i - start)),
            0 <= total <= 0x1_0000_0000_0000_0001,
            total <= 0x1_0000_0000_0000_0000 ==> total == digits_value(body.take(i - start)),
            total > 0x1_0000_0000_0000_0000 ==> digits_value(body.take(i - start)) > 0x1_0000_0000_0000_0000,
        decreases all@.len() - i,
    {
        let c = all[i];
        let ghost upto = body.take(i + 1 - start);
        proof {
            assert(upto.drop_last() =~= body.take(i - start));
            assert(upto.last() == c);
        }
        if !(c >= '0' && c <= '9') {
            assert(!is_digit(body[i - start]));
            return None;
        }
        let d: i128 = (c as u32 - 48) as i128;
        if total > 0x1_0000_0000_0000_0000 || total * 10 + d > 0x1_0000_0000_0000_0000 {
            total = 0x1_0000_0000_0000_0001;
        } else {
            total = total * 10 + d;
        }
        i += 1;
    }
    assert(body.take(i - start) =~= body);
    if total > 0x1_0000_0000_0000_0000 {
        return None;
    }
    let value: i128 = if minus { -total } else { total };
    if value < low || value > high {
        None
    } else {
        Some(value)
    }
}

/// `s` without the double quotes at its beginning.
pub open spec fn without_leading_quotes(s: Seq<char>) -> Seq<char>
    decreases s.len(),
{
    if s.len() > 0 && s[0] == '"' {
        without_leading_quotes(s.skip(1))
    } else {
        s
    }
}

/// `s` without the double quotes at its end.
pub open spec fn without_trailing_quotes(s: Seq<char>) -> Seq<char>
    decreases s.len(),
{
    if s.len() > 0 && s.last() == '"' {
        without_trailing_quotes(s.drop_last())
    } else {
        s
    }
}

/// `s` without the double quotes at its beginning and at its end.
pub open spec fn unquoted(s: Seq<char>) -> Seq<char> {
    without_trailing_quotes(without_leading_quotes(s))
}

/// The characters of `all` from `from` up to `to`, as a string.
fn text_of(all: &Vec<char>, from: usize, to: usize) -> (r: String)
    requires
        from <= to <= all@.len(),
    ensures
        r@ == all@.subrange(from as int, to as int),
{
    let mut out = String::new();
    let mut i: usize = from;
    while i < to
        invariant
            from <= i <= to <= all@.len(),
            out@ == all@.subrange(from as int, i as int),
        decreases to - i,
    {
        out.push(all[i]);
        i += 1;
        assert(out@ =~= all@.subrange(from as int, i as int));
    }
    out
}

/// `s` without the double quotes at its beginning and at its end.
pub fn trim_quotes(s: &str) -> (r: String)
    ensures
        r@ == unquoted(s@),
{
    let all = chars_of(s);
    let mut from: usize = 0;
    assert(all@.skip(0) =~= all@);
    while from < all.len() && all[from] == '"'
        invariant
            all@ == s@,
            from <= all@.len(),
            without_leading_quotes(all@.skip(from as int)) == without_leading_quotes(s@),
        decreases all@.len() - from,
    {
        assert(all@.skip(from as int).skip(1) =~= all@.skip(from + 1));
        from += 1;
    }
    let ghost rest = all@.skip(from as int);
    let mut to: usize = all.len();
    assert(all@.subrange(from as int, to as int) =~= rest);
    while to > from && all[to - 1] == '"'
        invariant
            from <= to <= all@.len(),
            without_trailing_quotes(all@.subrange(from as int, to as int))
                == without_trailing_quotes(rest),
        decreases to,
    {
        assert(all@.subrange(from as int, to as int).drop_last() =~= all@.subrange(
            from as int,
            to - 1,
        ));
        to -= 1;
    }
    text_of(&all, from, to)
}

/// The first `n` characters of `s`, as a string.
pub fn take_chars(s: &str, n: usize) -> (r: String)
    requires
        n <= s@.len(),
    ensures
        r@ == s@.take(n as int),
{
    let all = chars_of(s);
    let out = text_of(&all, 0, n);
    assert(out@ =~= s@.take(n as int));
    out
}

/// The characters of `s` from `from` on, as a string.
pub fn skip_chars(s: &str, from: usize) -> (r: String)
    requires
        from <= s@.len(),
    ensures
        r@ == s@.skip(from as int),
{
    let all = chars_of(s);
    let out = text_of(&all, from, all.len());
    assert(out@ =~= s@.skip(from as int));
    out
}

/// The strings of `parts` one after the other, with `between` between each two.
pub open spec fn joined(parts: Seq<Seq<char>>, between: Seq<char>) -> Seq<char>
    decreases parts.len(),
{
    if parts.len() == 0 {
        Seq::empty()
    } else if parts.len() == 1 {
        parts[0]
    } else {
        joined(parts.drop_last(), between) + between + parts.last()
    }
}

/// The views of a sequence of strings.
pub open spec fn texts(parts: Seq<String>) -> Seq<Seq<char>> {
    parts.map_values(|s: String| s@)
}

/// The strings of `parts` one after the other, with `between` between each two.
pub fn join(parts: &Vec<String>, between: &str) -> (r: String)
    ensures
        r@ == joined(texts(parts@), between@),
{
    let mut out = String::new();
    let mut i: usize = 0;
    while i < parts.len()
        invariant
            i <= parts@.len(),
            out@ == joined(texts(parts@).take(i as int), between@),
        decreases parts@.len() - i,
    {
        if i > 0 {
            out.append(between);
        }
        out.append(parts[i].as_str());
        i += 1;
        proof {
            let done = texts(parts@).take(i as int);
            assert(done.drop_last() =~= texts(parts@).take(i - 1));
            if i == 1 {
                assert(out@ =~= done[0]);
            } else {
                assert(out@ =~= joined(done.drop_last(), between@) + between@ + done.last());
            }
        }
    }
    assert(texts(parts@).take(i as int) =~= texts(parts@));
    out
}

/// The lower case of a text, as the Unicode property `Lowercase` defines it.
pub uninterp spec fn unicode_lowercase(text: Seq<char>) -> Seq<char>;

/// The lower case of an ASCII character.
pub open spec fn ascii_lower(c: char) -> char {
    if 'A' <= c <= 'Z' {
        (c as int + 32) as char
    } else {
        c
    }
}

/// The lower case of a text. Of a text of ASCII characters it changes the
/// letters `A` to `Z` and nothing else.
pub open spec fn lowercase(text: Seq<char>) -> Seq<char> {
    if vstd::utf8::is_ascii_chars(text) {
        text.map_values(|c: char| ascii_lower(c))
    } else {
        unicode_lowercase(text)
    }
}

/// `str::to_lowercase` gives the lower case of a text, which depends on the text
/// alone. Of a text of ASCII characters it changes the letters `A` to `Z` and
/// nothing else.
#[verifier::external_body]
fn str_to_lowercase(text: &str) -> (r: String)
    ensures
        vstd::utf8::is_ascii_chars(text@) ==> r@ == text@.map_values(|c: char| ascii_lower(c)),
        !vstd::utf8::is_ascii_chars(text@) ==> r@ == unicode_lowercase(text@),
{
    text.to_lowercase()
}

/// The lower case of a text.
pub fn to_lowercase(text: &str) -> (r: String)
    ensures
        r@ == lowercase(text@),
{
    str_to_lowercase(text)
}

/// Reading back a number that was written in decimal notation gives the number.
pub proof fn decimal_reads_back(n: nat)
    ensures
        all_digits(decimal(n)),
        decimal(n).len() > 0,
        digits_value(decimal(n)) == n,
    decreases n,
{
    reveal_with_fuel(digits_value, 2);
    if n < 10 {
        assert(decimal(n).drop_last() =~= Seq::<char>::empty());
    } else {
        decimal_reads_back(n / 10);
        assert(decimal(n).drop_last() =~= decimal(n / 10));
    }
}

/// A number that needs no more than `width` digits is filled up to `width` digits.
pub proof fn lemma_padded_length(n: nat, width: nat)
    requires
        decimal(n).len() <= width,
    ensures
        padded(n, width).len() == width,
        all_digits(padded(n, width)),
{
    decimal_reads_back(n);
    let zeros = Seq::new((width - decimal(n).len()) as nat, |i: int| '0');
    assert(decimal(n).len() < width ==> padded(n, width) =~= zeros + decimal(n));
    assert forall|i: int| 0 <= i < padded(n, width).len() implies is_digit(
        #[trigger] padded(n, width)[i],
    ) by {
        if decimal(n).len() < width {
            if i < zeros.len() {
                assert(padded(n, width)[i] == '0');
            } else {
                assert(padded(n, width)[i] == decimal(n)[i - zeros.len()]);
            }
        }
    }
}

/// An integer that was written in decimal notation is read back from it, where
/// it lies in the range that is asked for.
pub proof fn signed_decimal_reads_back(n: int, low: int, high: int)
    requires
        low <= n <= high,
    ensures
        integer_in(signed_decimal(n), true, low, high) == Some(n),
        n >= 0 ==> integer_in(signed_decimal(n), false, low, high) == Some(n),
{
    if n < 0 {
        decimal_reads_back((-n) as nat);
        assert(signed_decimal(n).skip(1) =~= decimal((-n) as nat));
    } else {
        decimal_reads_back(n as nat);
        assert(is_digit(decimal(n as nat)[0]));
    }
}

/// Whether the text `a` stands before the text `b`: at the first position where
/// they differ it has the lower character, or it ends there.
pub open spec fn before(a: Seq<char>, b: Seq<char>) -> bool
    decreases a.len(),
{
    if b.len() == 0 {
        false
    } else if a.len() == 0 {
        true
    } else if a[0] != b[0] {
        a[0] < b[0]
    } else {
        before(a.skip(1), b.skip(1))
    }
}

/// Of two different texts one stands before the other, and none before itself.
pub proof fn order_is_total(a: Seq<char>, b: Seq<char>)
    ensures
        before(a, b) <==> !before(b, a) && a != b,
    decreases a.len(),
{
    if a.len() > 0 && b.len() > 0 && a[0] == b[0] {
        order_is_total(a.skip(1), b.skip(1));
        if a.skip(1) == b.skip(1) {
            assert(a =~= b) by {
                assert forall|i: int| 0 <= i < a.len() implies a[i] == b[i] by {
                    if i > 0 {
                        assert(a.skip(1)[i - 1] == b.skip(1)[i - 1]);
                    }
                }
                assert(a.skip(1).len() == b.skip(1).len());
            }
        }
    } else if a.len() == 0 && b.len() == 0 {
        assert(a =~= b);
    }
}

/// What stands before a text stands before all that come after that text.
pub proof fn order_is_transitive(a: Seq<char>, b: Seq<char>, c: Seq<char>)
    requires
        before(a, b),
        before(b, c),
    ensures
        before(a, c),
    decreases a.len(),
{
    if a.len() > 0 && a[0] == b[0] && b[0] == c[0] {
        order_is_transitive(a.skip(1), b.skip(1), c.skip(1));
    }
}

/// Whether the text `a` stands before the text `b`.
pub fn is_before(a: &str, b: &str) -> (r: bool)
    ensures
        r == before(a@, b@),
{
    let x = chars_of(a);
    let y = chars_of(b);
    let mut i: usize = 0;
    assert(x@.skip(0) =~= x@ && y@.skip(0) =~= y@);
    while i < x.len() && i < y.len()
        invariant
            x@ == a@,
            y@ == b@,
            i <= x@.len(),
            i <= y@.len(),
            before(a@, b@) == before(x@.skip(i as int), y@.skip(i as int)),
        decreases x@.len() - i,
    {
        assert(x@.skip(i as int).skip(1) =~= x@.skip(i + 1));
        assert(y@.skip(i as int).skip(1) =~= y@.skip(i + 1));
        if x[i] != y[i] {
            return x[i] < y[i];
        }
        i += 1;
    }
    i < y.len()
}

/// A part is found wherever it stands, and what is found is there: a text has a
/// part exactly where it is something before the part, the part, and something
/// behind it.
pub proof fn parts_are_found(before: Seq<char>, part: Seq<char>, behind: Seq<char>)
    ensures
        has_part(before + part + behind, part),
        has_prefix(part + behind, part),
        has_suffix(before + part, part),
{
    let whole = before + part + behind;
    let at = before.len() as int;
    assert(whole.subrange(at, at + part.len()) =~= part);
    assert(occurs_at(whole, part, at));
    assert((part + behind).subrange(0, part.len() as int) =~= part);
    let ending = before + part;
    assert(ending.subrange(before.len() as int, ending.len() as int) =~= part);
}

/// A text that has a part is something before the part, the part, and something
/// behind it; one that begins with it has nothing before it, and one that ends with
/// it has nothing behind it.
pub proof fn found_parts_are_there(whole: Seq<char>, part: Seq<char>) -> (r: (Seq<char>, Seq<char>))
    requires
        has_part(whole, part) || has_prefix(whole, part) || has_suffix(whole, part),
    ensures
        whole == r.0 + part + r.1,
        has_prefix(whole, part) ==> whole == part + whole.skip(part.len() as int),
        has_suffix(whole, part) ==> whole == whole.take(whole.len() - part.len()) + part,
{
    let at = if has_prefix(whole, part) {
        0
    } else if has_suffix(whole, part) {
        whole.len() - part.len()
    } else {
        choose|at: int| occurs_at(whole, part, at)
    };
    let a = whole.take(at);
    let b = whole.skip(at + part.len());
    assert(whole.subrange(at, at + part.len()) == part);
    assert(whole =~= a + whole.subrange(at, at + part.len()) + b);
    if has_prefix(whole, part) {
        assert(whole =~= whole.subrange(0, part.len() as int) + whole.skip(part.len() as int));
    }
    if has_suffix(whole, part) {
        let from = whole.len() - part.len();
        assert(whole =~= whole.take(from) + whole.subrange(from, whole.len() as int));
    }
    (a, b)
}

/// A part that holds a character is not found in a text without that character.
pub proof fn parts_share_characters(whole: Seq<char>, part: Seq<char>, i: int)
    requires
        has_part(whole, part),
        0 <= i < part.len(),
    ensures
        whole.contains(part[i]),
{
    let at = choose|at: int| occurs_at(whole, part, at);
    assert(whole.subrange(at, at + part.len())[i] == whole[at + i]);
}

/// Each digit counts ten times as much as the one behind it, and `0` to `9` stand for
/// zero to nine.
pub proof fn digits_have_decimal_weights(s: Seq<char>, d: int)
    requires
        0 <= d <= 9,
    ensures
        digits_value(s.push((48 + d) as char)) == digits_value(s) * 10 + d,
{
    let all = s.push((48 + d) as char);
    assert(all.drop_last() =~= s);
}

/// A number with one more digit is written with one more character, which is that
/// digit.
pub proof fn one_more_digit(n: nat, d: int)
    requires
        0 <= d <= 9,
        n > 0,
    ensures
        decimal((10 * n + d) as nat) == decimal(n).push((48 + d) as char),
        decimal(d as nat) == seq![(48 + d) as char],
{
    let m = (10 * n + d) as nat;
    assert(m / 10 == n && m % 10 == d);
    assert(m >= 10);
}

proof fn lemma_zeros_before(zeros: Seq<char>, s: Seq<char>)
    requires
        forall|i: int| 0 <= i < zeros.len() ==> zeros[i] == '0',
    ensures
        digits_value(zeros + s) == digits_value(s),
    decreases zeros.len() + s.len(),
{
    let all = zeros + s;
    if s.len() > 0 {
        assert(all.drop_last() =~= zeros + s.drop_last());
        lemma_zeros_before(zeros, s.drop_last());
    } else if zeros.len() > 0 {
        assert(all =~= zeros);
        lemma_zeros_before(zeros.drop_last(), s);
        assert(zeros.drop_last() + s =~= zeros.drop_last());
        assert(digits_value(zeros.drop_last()) == 0);
    }
}

/// Zeros on the left change nothing: a number that was filled up reads back.
pub proof fn padded_reads_back(n: nat, width: nat)
    ensures
        all_digits(padded(n, width)),
        digits_value(padded(n, width)) == n,
        padded(n, width).len() >= width,
        decimal(n).len() <= width ==> padded(n, width).len() == width,
{
    decimal_reads_back(n);
    let plain = decimal(n);
    if plain.len() < width {
        let zeros = Seq::new((width - plain.len()) as nat, |i: int| '0');
        lemma_zeros_before(zeros, plain);
        lemma_padded_length(n, width);
    }
}

proof fn lemma_leading_quotes(s: Seq<char>)
    ensures
        without_leading_quotes(s).len() > 0 ==> without_leading_quotes(s)[0] != '"',
        without_leading_quotes(s).len() <= s.len(),
    decreases s.len(),
{
    if s.len() > 0 && s[0] == '"' {
        lemma_leading_quotes(s.skip(1));
    }
}

proof fn lemma_trailing_quotes(s: Seq<char>)
    ensures
        without_trailing_quotes(s).len() > 0 ==> without_trailing_quotes(s).last() != '"',
        without_trailing_quotes(s).len() <= s.len(),
        without_trailing_quotes(s) == s.take(without_trailing_quotes(s).len() as int),
    decreases s.len(),
{
    if s.len() > 0 && s.last() == '"' {
        lemma_trailing_quotes(s.drop_last());
        let kept = without_trailing_quotes(s.drop_last());
        assert(s.drop_last().take(kept.len() as int) =~= s.take(kept.len() as int));
    } else {
        assert(s.take(s.len() as int) =~= s);
    }
}

/// Taking off quotes takes off all of them at both ends, and only them.
pub proof fn unquoting_takes_off_quotes(s: Seq<char>)
    ensures
        unquoted(s).len() > 0 ==> unquoted(s)[0] != '"' && unquoted(s).last() != '"',
        s.len() == 0 || (s[0] != '"' && s.last() != '"') ==> unquoted(s) == s,
        s.len() == 0 || (s[0] != '"' && s.last() != '"') ==> unquoted(seq!['"'] + s + seq!['"'])
            == s,
{
    let start = without_leading_quotes(s);
    lemma_leading_quotes(s);
    lemma_trailing_quotes(start);
    if s.len() == 0 || (s[0] != '"' && s.last() != '"') {
        let quoted = seq!['"'] + s + seq!['"'];
        assert(quoted.skip(1) =~= s + seq!['"']);
        if s.len() == 0 {
            assert(s =~= Seq::<char>::empty());
            assert(quoted.skip(1) =~= seq!['"']);
            assert(seq!['"'].skip(1) =~= Seq::<char>::empty());
            assert(without_leading_quotes(seq!['"'].skip(1)) =~= Seq::<char>::empty());
            assert(without_leading_quotes(quoted.skip(1)) =~= Seq::<char>::empty());
        } else {
            let ended = s + seq!['"'];
            assert(ended[0] == s[0]);
            assert(without_leading_quotes(ended) == ended);
            assert(quoted.skip(1) == ended);
            assert(without_leading_quotes(quoted) == ended);
            assert(ended.drop_last() =~= s);
            assert(without_trailing_quotes(ended.drop_last()) == s);
        }
    }
}

/// Every part is in what they are joined to, and the parts stand in their order: what
/// joins two lists is the first, the text between, and the second.
pub proof fn joined_holds_every_part(parts: Seq<Seq<char>>, between: Seq<char>, i: int)
    requires
        0 <= i < parts.len(),
    ensures
        has_part(joined(parts, between), parts[i]),
        i > 0 ==> joined(parts, between) == joined(parts.take(i), between) + between + joined(
            parts.skip(i),
            between,
        ),
    decreases parts.len(),
{
    let whole = joined(parts, between);
    if i == parts.len() - 1 {
        if parts.len() == 1 {
            parts_are_found(Seq::empty(), parts[0], Seq::empty());
            assert(Seq::<char>::empty() + parts[0] + Seq::<char>::empty() =~= parts[0]);
        } else {
            let front = joined(parts.drop_last(), between) + between;
            parts_are_found(front, parts[i], Seq::empty());
            assert(front + parts[i] + Seq::<char>::empty() =~= whole);
            assert(parts.take(i) =~= parts.drop_last());
            assert(parts.skip(i) =~= seq![parts[i]]);
        }
    } else {
        let less = parts.drop_last();
        joined_holds_every_part(less, between, i);
        let (a, b) = found_parts_are_there(joined(less, between), less[i]);
        let rest = b + between + parts.last();
        parts_are_found(a, parts[i], rest);
        assert(a + parts[i] + rest =~= whole);
        if i > 0 {
            assert(less.take(i) =~= parts.take(i));
            let tail = parts.skip(i);
            assert(tail.drop_last() =~= less.skip(i));
            assert(tail.last() == parts.last());
            assert(whole =~= joined(parts.take(i), between) + between + joined(tail, between));
        }
    }
}

/// The order is that of the first difference: with the same beginning, the text with
/// the lower next character stands first, and a text stands before every longer one
/// that begins with it.
pub proof fn first_difference_decides(
    start: Seq<char>,
    c: char,
    d: char,
    x: Seq<char>,
    y: Seq<char>,
)
    requires
        c < d,
    ensures
        before(start + seq![c] + x, start + seq![d] + y),
        before(start, start + seq![c] + x),
    decreases start.len(),
{
    let a = start + seq![c] + x;
    let b = start + seq![d] + y;
    if start.len() > 0 {
        let rest = start.skip(1);
        first_difference_decides(rest, c, d, x, y);
        assert(a.skip(1) =~= rest + seq![c] + x);
        assert(b.skip(1) =~= rest + seq![d] + y);
        assert(a[0] == start[0] && b[0] == start[0]);
    } else {
        assert(a[0] == c && b[0] == d);
    }
}

/// A text with a character that is no digit and no sign writes no integer.
pub proof fn other_characters_write_no_integer(
    text: Seq<char>,
    signed: bool,
    low: int,
    high: int,
    i: int,
)
    requires
        0 <= i < text.len(),
        !('0' <= text[i] <= '9'),
        i > 0 || (text[i] != '+' && text[i] != '-'),
    ensures
        integer_in(text, signed, low, high) is None,
{
    let body = text.skip(1);
    if i > 0 {
        assert(body[i - 1] == text[i]);
        assert(!is_digit(text[i]));
    } else {
        assert(!is_digit(text[0]));
    }
}

/// A text of ASCII characters without an upper case letter is its own lower case.
pub proof fn lower_case_stays(text: Seq<char>)
    requires
        forall|i: int|
            0 <= i < text.len() ==> '\0' <= (#[trigger] text[i]) <= '\u{7f}' && !('A' <= text[i]
                <= 'Z'),
    ensures
        lowercase(text) == text,
{
    assert(vstd::utf8::is_ascii_chars(text));
    assert(lowercase(text) =~= text);
}

/// A text that has a part has every part of that part.
pub proof fn parts_have_parts(whole: Seq<char>, part: Seq<char>, inner: Seq<char>)
    requires
        has_part(whole, part),
        has_part(part, inner),
    ensures
        has_part(whole, inner),
{
    let (a, b) = found_parts_are_there(whole, part);
    let (c, d) = found_parts_are_there(part, inner);
    parts_are_found(a + c, inner, d + b);
    assert(a + c + inner + (d + b) =~= a + (c + inner + d) + b);
}

/// A plus sign before a number counts for nothing, and neither do zeros; a sign alone,
/// and nothing at all, write no integer.
pub proof fn signs_and_zeros_of_integers(
    n: nat,
    width: nat,
    signed: bool,
    low: int,
    high: int,
)
    requires
        low <= n <= high,
    ensures
        integer_in(seq!['+'] + decimal(n), signed, low, high) == Some(n as int),
        integer_in(padded(n, width), signed, low, high) == Some(n as int),
        integer_in(seq!['+'], signed, low, high) is None,
        integer_in(seq!['-'], signed, low, high) is None,
        integer_in(Seq::empty(), signed, low, high) is None,
{
    decimal_reads_back(n);
    padded_reads_back(n, width);
    let plus = seq!['+'] + decimal(n);
    assert(plus.skip(1) =~= decimal(n));
    assert(plus[0] == '+');
    assert(padded(n, width).len() > 0) by {
        if decimal(n).len() < width {
            assert(padded(n, width).len() >= width);
        }
    }
    assert(is_digit(padded(n, width)[0]));
    assert(seq!['+'].skip(1).len() == 0);
    assert(seq!['-'].skip(1).len() == 0);
    assert(!is_digit(seq!['-'][0]));
}

/// An integer that lies out of the range that is asked for is not read.
pub proof fn integers_out_of_range_are_not_read(n: int, signed: bool, low: int, high: int)
    requires
        n < low || n > high,
    ensures
        integer_in(signed_decimal(n), signed, low, high) is None,
{
    if n < 0 {
        decimal_reads_back((-n) as nat);
        assert(signed_decimal(n).skip(1) =~= decimal((-n) as nat));
        assert(signed_decimal(n)[0] == '-');
        assert(!is_digit('-'));
    } else {
        decimal_reads_back(n as nat);
        assert(is_digit(decimal(n as nat)[0]));
    }
}

} // verus!
