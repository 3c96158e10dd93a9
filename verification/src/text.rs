//! Text primitives: what the rest of the crate says about strings, and the
//! functions that compute it.
//!
//! Every statement is over the view of a string, its sequence of characters.

use vstd::prelude::*;
use vstd::string::*;
use vstd::utf8::*;

verus! {

// ── Trusted ───────────────────────────────────────────────────────────────

/// `String::push` of the standard library: appends the character and leaves
/// what was there as it was.
pub assume_specification[ String::push ](s: &mut String, c: char)
    ensures
        final(s)@ == old(s)@.push(c),
;

/// What `String::from_utf8_lossy` makes of a byte sequence that need not be
/// UTF-8.
pub uninterp spec fn utf8_lossy(bytes: Seq<u8>) -> Seq<char>;

/// `String::from_utf8_lossy` of the standard library. Claimed: the text is a
/// function of the bytes alone, and bytes that are UTF-8 come out as the text
/// they encode. What stands in for an ill-formed byte is left unsaid.
#[verifier::external_body]
pub(crate) fn lossy_text(bytes: &[u8]) -> (r: String)
    ensures
        r@ == utf8_lossy(bytes@),
        valid_utf8(bytes@) ==> r@ == decode_utf8(bytes@),
{
    String::from_utf8_lossy(bytes).into_owned()
}

// ── Views of the usual containers of text ─────────────────────────────────

/// The text of an optional string.
pub open spec fn opt_text(o: Option<String>) -> Option<Seq<char>> {
    match o {
        Some(s) => Some(s@),
        None => None,
    }
}

/// The texts of a sequence of strings.
pub open spec fn texts(v: Seq<String>) -> Seq<Seq<char>> {
    Seq::new(v.len(), |i: int| v[i]@)
}

/// The text on either side of a result.
pub open spec fn result_text(r: Result<String, String>) -> Result<Seq<char>, Seq<char>> {
    match r {
        Ok(s) => Ok(s@),
        Err(e) => Err(e@),
    }
}

// ── Equality and copies ───────────────────────────────────────────────────

/// Whether two strings hold the same text.
pub fn same(a: &str, b: &str) -> (r: bool)
    ensures
        r == (a@ == b@),
{
    a.to_owned() == b.to_owned()
}

/// A copy of an optional string.
pub fn copy_opt(o: &Option<String>) -> (r: Option<String>)
    ensures
        r == *o,
{
    match o {
        Some(s) => Some(s.clone()),
        None => None,
    }
}

/// The characters of `s`, in order.
pub fn chars_of(s: &str) -> (r: Vec<char>)
    ensures
        r@ == s@,
{
    let mut out: Vec<char> = Vec::new();
    for c in it: s.chars()
        invariant
            it.seq() == s@,
            out@ == s@.take(it.index()),
    {
        out.push(c);
    }
    assert(s@.take(s@.len() as int) =~= s@);
    out
}

/// The string of the characters `from..to`.
pub fn string_of(chars: &Vec<char>, from: usize, to: usize) -> (r: String)
    requires
        from <= to <= chars@.len(),
    ensures
        r@ == chars@.subrange(from as int, to as int),
{
    let mut out = String::new();
    let mut i: usize = from;
    while i < to
        invariant
            from <= i <= to <= chars@.len(),
            out@ == chars@.subrange(from as int, i as int),
        decreases to - i,
    {
        out.push(chars[i]);
        i = i + 1;
        assert(out@ =~= chars@.subrange(from as int, i as int));
    }
    out
}

/// Two texts after one another.
pub fn join2(a: &str, b: &str) -> (r: String)
    ensures
        r@ == a@ + b@,
{
    let mut out = a.to_owned();
    out.append(b);
    out
}

/// Three texts after one another.
pub fn join3(a: &str, b: &str, c: &str) -> (r: String)
    ensures
        r@ == a@ + b@ + c@,
{
    let mut out = a.to_owned();
    out.append(b);
    out.append(c);
    out
}

// ── Length in bytes ───────────────────────────────────────────────────────

/// Length in bytes of a text's UTF-8 form.
pub open spec fn byte_len(s: Seq<char>) -> usize {
    encode_utf8(s).len() as usize
}

// ── Decimal numbers ───────────────────────────────────────────────────────

/// The character of a decimal digit.
pub open spec fn digit_char(d: nat) -> char {
    (48 + d) as char
}

/// The decimal form of a number, without leading zeros.
pub open spec fn decimal(n: nat) -> Seq<char>
    decreases n,
{
    if n < 10 {
        seq![digit_char(n)]
    } else {
        decimal(n / 10).push(digit_char(n % 10))
    }
}

fn digit_of(d: u64) -> (c: char)
    requires
        d < 10,
    ensures
        c == digit_char(d as nat),
{
    let b: u8 = (48 + d) as u8;
    b as char
}

/// `n` written in decimal.
pub fn decimal_text(n: u64) -> (r: String)
    ensures
        r@ == decimal(n as nat),
    decreases n,
{
    if n < 10 {
        let mut out = String::new();
        out.push(digit_of(n));
        assert(out@ =~= decimal(n as nat));
        out
    } else {
        let mut out = decimal_text(n / 10);
        out.push(digit_of(n % 10));
        out
    }
}

/// Whether every character is a decimal digit.
pub open spec fn all_digits(s: Seq<char>) -> bool {
    forall|i: int| 0 <= i < s.len() ==> '0' <= #[trigger] s[i] && s[i] <= '9'
}

/// The number that a sequence of decimal digits denotes.
pub open spec fn digits_value(s: Seq<char>) -> nat
    decreases s.len(),
{
    if s.len() == 0 {
        0
    } else {
        digits_value(s.drop_last()) * 10 + (s.last() as nat - 48) as nat
    }
}

/// A `u32` in decimal: an optional `+`, then digits only and at least one, with
/// a value that fits.
pub open spec fn u32_of(s: Seq<char>) -> Option<u32> {
    let digits = if s.len() > 0 && s[0] == '+' {
        s.drop_first()
    } else {
        s
    };
    if digits.len() > 0 && all_digits(digits) && digits_value(digits) <= u32::MAX {
        Some(digits_value(digits) as u32)
    } else {
        None
    }
}

proof fn lemma_digits_value_grows(s: Seq<char>, k: int)
    requires
        0 <= k <= s.len(),
        all_digits(s),
    ensures
        digits_value(s.take(k)) <= digits_value(s),
    decreases s.len() - k,
{
    if k < s.len() {
        lemma_digits_value_grows(s, k + 1);
        assert(s.take(k + 1).drop_last() =~= s.take(k));
    } else {
        assert(s.take(k) =~= s);
    }
}

/// Reads a `u32` in decimal.
pub fn parse_u32(s: &str) -> (r: Option<u32>)
    ensures
        r == u32_of(s@),
{
    let chars = chars_of(s);
    let mut i: usize = 0;
    if chars.len() > 0 && chars[0] == '+' {
        i = 1;
    }
    let ghost digits = if s@.len() > 0 && s@[0] == '+' {
        s@.drop_first()
    } else {
        s@
    };
    let start: usize = i;
    if start == chars.len() {
        return None;
    }
    let mut value: u64 = 0;
    while i < chars.len()
        invariant
            chars@ == s@,
            start <= i <= chars@.len(),
            start <= 1,
            digits == s@.subrange(start as int, s@.len() as int),
            digits == (if s@.len() > 0 && s@[0] == '+' {
                s@.drop_first()
            } else {
                s@
            }),
            all_digits(digits.take(i - start)),
            value == digits_value(digits.take(i - start)),
            value <= u32::MAX,
        decreases chars.len() - i,
    {
        let c = chars[i];
        let ghost k = i - start;
        assert(digits[k] == c);
        if c < '0' || '9' < c {
            return None;
        }
        value = value * 10 + ((c as u32) - 48) as u64;
        i = i + 1;
        assert(digits.take(k + 1).drop_last() =~= digits.take(k));
        assert(digits.take(k + 1).last() == c);
        assert(all_digits(digits.take(k + 1))) by {
            assert forall|j: int| 0 <= j < k + 1 implies '0' <= #[trigger] digits.take(k + 1)[j]
                && digits.take(k + 1)[j] <= '9' by {
                if j < k {
                    assert(digits.take(k + 1)[j] == digits.take(k)[j]);
                }
            }
        }
        if value > u32::MAX as u64 {
            proof {
                if all_digits(digits) {
                    lemma_digits_value_grows(digits, k + 1);
                }
            }
            return None;
        }
    }
    assert(digits.take(digits.len() as int) =~= digits);
    Some(value as u32)
}

proof fn lemma_decimal_digits(n: nat)
    ensures
        decimal(n).len() > 0,
        all_digits(decimal(n)),
        digits_value(decimal(n)) == n,
        n < 10 ==> decimal(n).len() == 1,
    decreases n,
{
    if n < 10 {
        let s = decimal(n);
        assert(s.drop_last() =~= Seq::<char>::empty());
        assert(digits_value(s.drop_last()) == 0);
    } else {
        lemma_decimal_digits(n / 10);
        let s = decimal(n);
        assert(s.drop_last() =~= decimal(n / 10));
        assert forall|i: int| 0 <= i < s.len() implies '0' <= #[trigger] s[i] && s[i] <= '9' by {
            if i < s.len() - 1 {
                assert(s[i] == decimal(n / 10)[i]);
            }
        }
    }
}

/// A number written in decimal reads back as that number.
pub proof fn law_decimal_reads_back(n: u32)
    ensures
        u32_of(decimal(n as nat)) == Some(n),
{
    lemma_decimal_digits(n as nat);
    assert(decimal(n as nat)[0] != '+');
}

// ── ASCII lower case ──────────────────────────────────────────────────────

/// `c` with an ASCII capital made small.
pub open spec fn lower_char(c: char) -> char {
    if 'A' <= c && c <= 'Z' {
        (c as u32 + 32) as char
    } else {
        c
    }
}

/// A text with its ASCII capitals made small.
pub open spec fn lower(s: Seq<char>) -> Seq<char> {
    Seq::new(s.len(), |i: int| lower_char(s[i]))
}

fn lower_of(c: char) -> (r: char)
    ensures
        r == lower_char(c),
{
    if 'A' <= c && c <= 'Z' {
        let b: u8 = (c as u32) as u8;
        let small: u8 = b + 32;
        small as char
    } else {
        c
    }
}

/// `s` with its ASCII capitals made small.
pub fn lower_text(s: &str) -> (r: String)
    ensures
        r@ == lower(s@),
{
    let chars = chars_of(s);
    let mut out = String::new();
    let mut i: usize = 0;
    while i < chars.len()
        invariant
            chars@ == s@,
            i <= chars@.len(),
            out@ == lower(s@).take(i as int),
        decreases chars.len() - i,
    {
        out.push(lower_of(chars[i]));
        i = i + 1;
        assert(out@ =~= lower(s@).take(i as int));
    }
    assert(lower(s@).take(s@.len() as int) =~= lower(s@));
    out
}

// ── White space ───────────────────────────────────────────────────────────

/// The characters with the Unicode property `White_Space`.
pub open spec fn is_white(c: char) -> bool {
    ||| 0x9 <= c as u32 <= 0xd
    ||| c as u32 == 0x20
    ||| c as u32 == 0x85
    ||| c as u32 == 0xa0
    ||| c as u32 == 0x1680
    ||| 0x2000 <= c as u32 <= 0x200a
    ||| c as u32 == 0x2028
    ||| c as u32 == 0x2029
    ||| c as u32 == 0x202f
    ||| c as u32 == 0x205f
    ||| c as u32 == 0x3000
}

fn white(c: char) -> (r: bool)
    ensures
        r == is_white(c),
{
    let u: u32 = c as u32;
    (0x9 <= u && u <= 0xd) || u == 0x20 || u == 0x85 || u == 0xa0 || u == 0x1680 || (0x2000 <= u
        && u <= 0x200a) || u == 0x2028 || u == 0x2029 || u == 0x202f || u == 0x205f || u == 0x3000
}

/// A text without its leading white space.
pub open spec fn trim_start(s: Seq<char>) -> Seq<char>
    decreases s.len(),
{
    if s.len() > 0 && is_white(s[0]) {
        trim_start(s.drop_first())
    } else {
        s
    }
}

/// A text without its trailing white space.
pub open spec fn trim_end(s: Seq<char>) -> Seq<char>
    decreases s.len(),
{
    if s.len() > 0 && is_white(s.last()) {
        trim_end(s.drop_last())
    } else {
        s
    }
}

/// A text without the white space around it.
pub open spec fn trimmed(s: Seq<char>) -> Seq<char> {
    trim_end(trim_start(s))
}

/// `s` without the white space around it.
pub fn trim_text(s: &str) -> (r: String)
    ensures
        r@ == trimmed(s@),
{
    let chars = chars_of(s);
    let mut from: usize = 0;
    assert(s@.subrange(0, s@.len() as int) =~= s@);
    while from < chars.len() && white(chars[from])
        invariant
            chars@ == s@,
            from <= chars@.len(),
            trim_start(s@) == trim_start(s@.subrange(from as int, s@.len() as int)),
        decreases chars.len() - from,
    {
        assert(s@.subrange(from as int, s@.len() as int).drop_first() =~= s@.subrange(
            from + 1,
            s@.len() as int,
        ));
        from = from + 1;
    }
    let ghost kept = s@.subrange(from as int, s@.len() as int);
    assert(trim_start(s@) == kept);
    let mut to: usize = chars.len();
    assert(s@.subrange(from as int, to as int) =~= kept);
    while from < to && white(chars[to - 1])
        invariant
            chars@ == s@,
            from <= to <= chars@.len(),
            trim_end(kept) == trim_end(s@.subrange(from as int, to as int)),
        decreases to,
    {
        assert(s@.subrange(from as int, to as int).drop_last() =~= s@.subrange(
            from as int,
            to - 1,
        ));
        to = to - 1;
    }
    string_of(&chars, from, to)
}

// ── Searching and splitting ───────────────────────────────────────────────

/// Position of the first `c`, or the length where there is none.
pub open spec fn first_at(s: Seq<char>, c: char) -> int
    decreases s.len(),
{
    if s.len() == 0 || s[0] == c {
        0
    } else {
        1 + first_at(s.drop_first(), c)
    }
}

/// `first_at` is where `c` first stands.
pub proof fn lemma_first_at(s: Seq<char>, c: char)
    ensures
        0 <= first_at(s, c) <= s.len(),
        forall|j: int| 0 <= j < first_at(s, c) ==> s[j] != c,
        first_at(s, c) < s.len() ==> s[first_at(s, c)] == c,
        first_at(s, c) < s.len() <==> s.contains(c),
    decreases s.len(),
{
    if s.len() == 0 || s[0] == c {
        if s.len() > 0 {
            assert(s.contains(s[0]));
        }
    } else {
        let t = s.drop_first();
        lemma_first_at(t, c);
        assert forall|j: int| 0 <= j < first_at(s, c) implies s[j] != c by {
            if j > 0 {
                assert(t[j - 1] == s[j]);
            }
        }
        if s.contains(c) {
            let j = choose|j: int| 0 <= j < s.len() && s[j] == c;
            assert(t[j - 1] == c);
            assert(t.contains(c));
        }
        if first_at(s, c) < s.len() {
            assert(s[first_at(s, c)] == c);
        }
    }
}

/// A position before which `c` does not stand, and where it does or the text
/// ends, is `first_at`.
pub proof fn lemma_first_at_unique(s: Seq<char>, c: char, i: int)
    requires
        0 <= i <= s.len(),
        forall|j: int| 0 <= j < i ==> s[j] != c,
        i < s.len() ==> s[i] == c,
    ensures
        first_at(s, c) == i,
{
    lemma_first_at(s, c);
    let f = first_at(s, c);
    if f < i {
        assert(s[f] != c);
    } else if i < f {
        assert(s[i] != c);
    }
}

/// Position of the first `c` in `chars` at or after `from`.
fn scan_for(chars: &Vec<char>, from: usize, c: char) -> (i: usize)
    requires
        from <= chars@.len(),
    ensures
        from <= i <= chars@.len(),
        i - from == first_at(chars@.subrange(from as int, chars@.len() as int), c),
{
    let ghost rest = chars@.subrange(from as int, chars@.len() as int);
    let mut i: usize = from;
    while i < chars.len() && chars[i] != c
        invariant
            from <= i <= chars@.len(),
            rest == chars@.subrange(from as int, chars@.len() as int),
            forall|j: int| 0 <= j < i - from ==> rest[j] != c,
        decreases chars.len() - i,
    {
        assert(rest[i - from] == chars@[i as int]);
        i = i + 1;
    }
    proof {
        if i < chars@.len() {
            assert(rest[i - from] == chars@[i as int]);
        }
        lemma_first_at_unique(rest, c, i - from);
    }
    i
}

/// Whether `s` holds `c`.
pub fn has_char(s: &str, c: char) -> (r: bool)
    ensures
        r == s@.contains(c),
{
    let chars = chars_of(s);
    let i: usize = scan_for(&chars, 0, c);
    proof {
        assert(chars@.subrange(0, chars@.len() as int) =~= s@);
        lemma_first_at(s@, c);
    }
    i < chars.len()
}

/// The parts of a text between the separators; a text without one is its own
/// only part.
pub open spec fn split(s: Seq<char>, sep: char) -> Seq<Seq<char>>
    decreases s.len(),
{
    proof {
        lemma_first_at(s, sep);
    }
    if first_at(s, sep) < s.len() {
        seq![s.take(first_at(s, sep))] + split(s.skip(first_at(s, sep) + 1), sep)
    } else {
        seq![s]
    }
}

/// The parts of `s` between the separators.
pub fn split_text(s: &str, sep: char) -> (r: Vec<String>)
    ensures
        texts(r@) == split(s@, sep),
        r@.len() > 0,
{
    let chars = chars_of(s);
    let mut out: Vec<String> = Vec::new();
    let mut from: usize = 0;
    assert(s@.skip(0) =~= s@);
    assert(texts(out@) + split(s@, sep) =~= split(s@, sep));
    loop
        invariant_except_break
            chars@ == s@,
            from <= chars@.len(),
            texts(out@) + split(s@.skip(from as int), sep) == split(s@, sep),
        ensures
            texts(out@) == split(s@, sep),
            out@.len() > 0,
        decreases chars.len() - from,
    {
        let ghost before = texts(out@);
        let ghost rest = s@.skip(from as int);
        proof {
            assert(rest =~= s@.subrange(from as int, s@.len() as int));
            lemma_first_at(rest, sep);
        }
        let at: usize = scan_for(&chars, from, sep);
        let part = string_of(&chars, from, at);
        assert(part@ =~= rest.take(at - from));
        out.push(part);
        assert(texts(out@) =~= before.push(part@));
        if at == chars.len() {
            assert(rest.take(at - from) =~= rest);
            assert(texts(out@) =~= before + seq![rest]);
            break;
        }
        assert(rest.skip(at - from + 1) =~= s@.skip(at + 1));
        assert(texts(out@) + split(s@.skip(at + 1), sep) =~= before + (seq![rest.take(at - from)]
            + split(s@.skip(at + 1), sep)));
        from = at + 1;
    }
    out
}

/// What stands before and after the first `sep`; `None` where there is none.
pub open spec fn split_once(s: Seq<char>, sep: char) -> Option<(Seq<char>, Seq<char>)> {
    let i = first_at(s, sep);
    if i < s.len() {
        Some((s.take(i), s.skip(i + 1)))
    } else {
        None
    }
}

/// The texts of an optional pair.
pub open spec fn pair_text(p: Option<(String, String)>) -> Option<(Seq<char>, Seq<char>)> {
    match p {
        Some((a, b)) => Some((a@, b@)),
        None => None,
    }
}

/// What stands before and after the first `sep`.
pub fn split_once_text(s: &str, sep: char) -> (r: Option<(String, String)>)
    ensures
        pair_text(r) == split_once(s@, sep),
{
    let chars = chars_of(s);
    let at: usize = scan_for(&chars, 0, sep);
    assert(chars@.subrange(0, chars@.len() as int) =~= s@);
    if at == chars.len() {
        return None;
    }
    let head = string_of(&chars, 0, at);
    let tail = string_of(&chars, at + 1, chars.len());
    assert(head@ =~= s@.take(at as int));
    assert(tail@ =~= s@.skip(at + 1));
    Some((head, tail))
}

/// What stands after the last `sep`; the whole text where there is none.
pub open spec fn after_last(s: Seq<char>, sep: char) -> Seq<char>
    decreases s.len(),
{
    if s.len() == 0 || s.last() == sep {
        Seq::empty()
    } else {
        after_last(s.drop_last(), sep).push(s.last())
    }
}

/// What stands after the last `sep`.
pub fn after_last_text(s: &str, sep: char) -> (r: String)
    ensures
        r@ == after_last(s@, sep),
{
    let chars = chars_of(s);
    let mut from: usize = chars.len();
    assert(s@.take(from as int) =~= s@);
    assert(s@.subrange(from as int, s@.len() as int) =~= Seq::<char>::empty());
    assert(after_last(s@, sep) =~= after_last(s@.take(from as int), sep) + s@.subrange(
        from as int,
        s@.len() as int,
    ));
    while from > 0 && chars[from - 1] != sep
        invariant
            chars@ == s@,
            from <= chars@.len(),
            after_last(s@, sep) == after_last(s@.take(from as int), sep) + s@.subrange(
                from as int,
                s@.len() as int,
            ),
        decreases from,
    {
        let ghost head = s@.take(from as int);
        assert(head.drop_last() =~= s@.take(from - 1));
        assert(head.last() == s@[from - 1]);
        assert(after_last(head, sep) + s@.subrange(from as int, s@.len() as int) =~= after_last(
            s@.take(from - 1),
            sep,
        ) + s@.subrange(from - 1, s@.len() as int));
        from = from - 1;
    }
    assert(after_last(s@.take(from as int), sep) =~= Seq::<char>::empty());
    let out = string_of(&chars, from, chars.len());
    assert(out@ =~= after_last(s@, sep));
    out
}

/// Whether `prefix` stands at the head of `s`.
pub open spec fn begins(s: Seq<char>, prefix: Seq<char>) -> bool {
    prefix.len() <= s.len() && s.take(prefix.len() as int) == prefix
}

/// Whether `part` stands somewhere in `s`.
pub open spec fn holds(s: Seq<char>, part: Seq<char>) -> bool {
    exists|i: int| #![trigger s.skip(i)] 0 <= i <= s.len() && begins(s.skip(i), part)
}

fn begins_at(chars: &Vec<char>, from: usize, part: &Vec<char>) -> (r: bool)
    requires
        from <= chars@.len(),
    ensures
        r == begins(chars@.skip(from as int), part@),
{
    let ghost rest = chars@.skip(from as int);
    let n: usize = chars.len();
    if n - from < part.len() {
        return false;
    }
    let mut j: usize = 0;
    while j < part.len()
        invariant
            n == chars@.len(),
            from <= n,
            rest == chars@.skip(from as int),
            part@.len() <= rest.len(),
            j <= part@.len(),
            forall|k: int| 0 <= k < j ==> rest[k] == part@[k],
        decreases part.len() - j,
    {
        assert(from + j < chars@.len());
        assert(rest[j as int] == chars@[from + j]);
        if chars[from + j] != part[j] {
            assert(rest.take(part@.len() as int)[j as int] != part@[j as int]);
            return false;
        }
        j = j + 1;
    }
    assert(rest.take(part@.len() as int) =~= part@);
    true
}

/// Whether `prefix` stands at the head of `s`.
pub fn begins_with(s: &str, prefix: &str) -> (r: bool)
    ensures
        r == begins(s@, prefix@),
{
    let chars = chars_of(s);
    let part = chars_of(prefix);
    assert(chars@.skip(0) =~= s@);
    begins_at(&chars, 0, &part)
}

/// Whether `part` stands somewhere in `s`.
pub fn has_text(s: &str, part: &str) -> (r: bool)
    ensures
        r == holds(s@, part@),
{
    let chars = chars_of(s);
    let needle = chars_of(part);
    let mut i: usize = 0;
    loop
        invariant
            chars@ == s@,
            needle@ == part@,
            i <= chars@.len(),
            forall|k: int| 0 <= k < i ==> !begins(#[trigger] s@.skip(k), part@),
        decreases chars.len() - i,
    {
        if begins_at(&chars, i, &needle) {
            return true;
        }
        if i == chars.len() {
            assert forall|k: int| 0 <= k <= s@.len() implies !begins(#[trigger] s@.skip(k), part@) by {
                if k == i {
                }
            }
            return false;
        }
        i = i + 1;
    }
}

// ── Order ─────────────────────────────────────────────────────────────────

/// The order of texts, character by character; a prefix comes first. This is
/// the order of their UTF-8 bytes.
pub open spec fn text_le(a: Seq<char>, b: Seq<char>) -> bool
    decreases a.len(),
{
    if a.len() == 0 {
        true
    } else if b.len() == 0 {
        false
    } else if a[0] != b[0] {
        a[0] < b[0]
    } else {
        text_le(a.drop_first(), b.drop_first())
    }
}

/// `text_le` is total.
pub proof fn lemma_text_le_total(a: Seq<char>, b: Seq<char>)
    ensures
        text_le(a, b) || text_le(b, a),
    decreases a.len(),
{
    if a.len() > 0 && b.len() > 0 && a[0] == b[0] {
        lemma_text_le_total(a.drop_first(), b.drop_first());
    }
}

/// `text_le` is transitive.
pub proof fn lemma_text_le_transitive(a: Seq<char>, b: Seq<char>, c: Seq<char>)
    requires
        text_le(a, b),
        text_le(b, c),
    ensures
        text_le(a, c),
    decreases a.len(),
{
    if a.len() > 0 && b.len() > 0 && c.len() > 0 && a[0] == b[0] && b[0] == c[0] {
        lemma_text_le_transitive(a.drop_first(), b.drop_first(), c.drop_first());
    }
}

/// Whether `a` comes no later than `b`.
pub fn comes_first(a: &str, b: &str) -> (r: bool)
    ensures
        r == text_le(a@, b@),
{
    let x = chars_of(a);
    let y = chars_of(b);
    let mut i: usize = 0;
    assert(a@.skip(0) =~= a@);
    assert(b@.skip(0) =~= b@);
    loop
        invariant
            x@ == a@,
            y@ == b@,
            i <= x@.len(),
            i <= y@.len(),
            text_le(a@, b@) == text_le(a@.skip(i as int), b@.skip(i as int)),
        decreases x.len() - i,
    {
        let ghost p = a@.skip(i as int);
        let ghost q = b@.skip(i as int);
        if i == x.len() {
            return true;
        }
        if i == y.len() {
            return false;
        }
        assert(p[0] == x@[i as int]);
        assert(q[0] == y@[i as int]);
        if x[i] != y[i] {
            return x[i] < y[i];
        }
        assert(p.drop_first() =~= a@.skip(i + 1));
        assert(q.drop_first() =~= b@.skip(i + 1));
        i = i + 1;
    }
}

/// Whether the texts stand in order.
pub open spec fn in_order(v: Seq<Seq<char>>) -> bool {
    forall|i: int, j: int| 0 <= i <= j < v.len() ==> text_le(#[trigger] v[i], #[trigger] v[j])
}

/// Whether `r` holds the texts of `v`, each as often, in order.
pub open spec fn puts_in_order(v: Seq<Seq<char>>, r: Seq<Seq<char>>) -> bool {
    in_order(r) && r.to_multiset() == v.to_multiset()
}

/// The texts of `v` in order.
pub open spec fn ordered(v: Seq<Seq<char>>) -> Seq<Seq<char>> {
    choose|r: Seq<Seq<char>>| puts_in_order(v, r)
}

/// `text_le` is antisymmetric.
proof fn lemma_text_le_antisymmetric(a: Seq<char>, b: Seq<char>)
    requires
        text_le(a, b),
        text_le(b, a),
    ensures
        a == b,
    decreases a.len(),
{
    if a.len() > 0 && b.len() > 0 {
        lemma_text_le_antisymmetric(a.drop_first(), b.drop_first());
        assert(a =~= seq![a[0]] + a.drop_first());
        assert(b =~= seq![b[0]] + b.drop_first());
    } else {
        assert(a =~= b);
    }
}

/// `text_le` is a total order.
proof fn lemma_text_le_orders()
    ensures
        vstd::relations::total_ordering(|a: Seq<char>, b: Seq<char>| text_le(a, b)),
{
    let leq = |a: Seq<char>, b: Seq<char>| text_le(a, b);
    assert forall|a: Seq<char>| #[trigger] leq(a, a) by {
        lemma_text_le_total(a, a);
    }
    assert forall|a: Seq<char>, b: Seq<char>| #[trigger] leq(a, b) && #[trigger] leq(
        b,
        a,
    ) implies a == b by {
        lemma_text_le_antisymmetric(a, b);
    }
    assert forall|a: Seq<char>, b: Seq<char>, c: Seq<char>| #[trigger] leq(a, b) && #[trigger] leq(
        b,
        c,
    ) implies leq(a, c) by {
        lemma_text_le_transitive(a, b, c);
    }
    assert forall|a: Seq<char>, b: Seq<char>| #[trigger] leq(a, b) || #[trigger] leq(b, a) by {
        lemma_text_le_total(a, b);
    }
}

/// Texts can be put in order.
pub proof fn lemma_order_exists(v: Seq<Seq<char>>)
    ensures
        puts_in_order(v, ordered(v)),
{
    let leq = |a: Seq<char>, b: Seq<char>| text_le(a, b);
    lemma_text_le_orders();
    v.lemma_sort_by_ensures(leq);
    let r = v.sort_by(leq);
    assert forall|i: int, j: int| 0 <= i <= j < r.len() implies text_le(
        #[trigger] r[i],
        #[trigger] r[j],
    ) by {
        if i == j {
            lemma_text_le_total(r[i], r[i]);
        } else {
            assert(leq(r[i], r[j]));
        }
    }
    assert(puts_in_order(v, r));
}

/// There is one way to put texts in order.
pub proof fn lemma_order_is_unique(v: Seq<Seq<char>>, r: Seq<Seq<char>>)
    requires
        puts_in_order(v, r),
    ensures
        r == ordered(v),
{
    let leq = |a: Seq<char>, b: Seq<char>| text_le(a, b);
    let s = ordered(v);
    lemma_order_exists(v);
    lemma_text_le_orders();
    assert(vstd::relations::sorted_by(r, leq));
    assert(vstd::relations::sorted_by(s, leq));
    vstd::seq_lib::lemma_sorted_unique(r, s, leq);
}

/// Texts that only differ in their order are the same in order.
pub proof fn lemma_order_ignores_order(a: Seq<Seq<char>>, b: Seq<Seq<char>>)
    requires
        a.to_multiset() == b.to_multiset(),
    ensures
        ordered(a) == ordered(b),
{
    lemma_order_exists(a);
    lemma_order_is_unique(b, ordered(a));
}

/// Puts `s` into its place in a vector that stands in order.
fn insert_in_order(v: &mut Vec<String>, s: String)
    requires
        in_order(texts(old(v)@)),
    ensures
        in_order(texts(final(v)@)),
        texts(final(v)@).to_multiset() == texts(old(v)@).to_multiset().insert(s@),
{
    let ghost before = texts(v@);
    let mut at: usize = v.len();
    while at > 0 && comes_first(s.as_str(), v[at - 1].as_str())
        invariant
            before == texts(v@),
            at <= v@.len(),
            forall|k: int| at <= k < v@.len() ==> text_le(s@, #[trigger] before[k]),
        decreases at,
    {
        assert(before[at - 1] == v@[at - 1]@);
        at = at - 1;
    }
    let ghost text = s@;
    proof {
        if at > 0 {
            assert(before[at - 1] == v@[at - 1]@);
            lemma_text_le_total(text, before[at - 1]);
        }
    }
    v.insert(at, s);
    proof {
        let after = texts(v@);
        assert(after =~= before.insert(at as int, text));
        assert forall|i: int, j: int| 0 <= i <= j < after.len() implies text_le(
            #[trigger] after[i],
            #[trigger] after[j],
        ) by {
            if i == j {
                lemma_text_le_total(after[i], after[i]);
            } else if j == at {
                if i < at - 1 {
                    assert(text_le(before[i], before[at - 1]));
                    lemma_text_le_transitive(before[i], before[at - 1], text);
                }
            } else if i < at {
                assert(after[i] == before[i]);
                if j < at {
                    assert(text_le(before[i], before[j]));
                } else {
                    assert(text_le(before[i], before[j - 1]));
                }
            } else if i > at {
                assert(text_le(before[i - 1], before[j - 1]));
            }
        }
        vstd::seq_lib::to_multiset_insert(before, at as int, text);
    }
}

/// Puts the strings in order, each as often as before.
pub fn sorted_texts(v: Vec<String>) -> (r: Vec<String>)
    ensures
        texts(r@) == ordered(texts(v@)),
        puts_in_order(texts(v@), texts(r@)),
{
    let mut out: Vec<String> = Vec::new();
    let mut i: usize = 0;
    assert(texts(out@) =~= texts(v@).take(0));
    while i < v.len()
        invariant
            i <= v@.len(),
            in_order(texts(out@)),
            texts(out@).to_multiset() == texts(v@).take(i as int).to_multiset(),
        decreases v.len() - i,
    {
        let ghost done = texts(v@).take(i as int);
        insert_in_order(&mut out, v[i].clone());
        i = i + 1;
        proof {
            assert(texts(v@).take(i as int) =~= done.push(v@[i - 1]@));
            broadcast use vstd::seq_lib::group_to_multiset_ensures;
        }
    }
    assert(texts(v@).take(v@.len() as int) =~= texts(v@));
    proof {
        lemma_order_is_unique(texts(v@), texts(out@));
    }
    out
}

// ── Laws ──────────────────────────────────────────────────────────────────

/// The decimal form of a number: one digit where it is below ten, else the form of
/// its tenth with one more digit behind. The digits are `0` to `9`, the first of a
/// longer form is no `0`, and other numbers have other forms.
pub proof fn law_decimal_form(n: nat, m: nat)
    ensures
        n < 10 ==> decimal(n) == seq!["0123456789"@[n as int]],
        n >= 10 ==> decimal(n) == decimal(n / 10).push("0123456789"@[n as int % 10]),
        all_digits(decimal(n)),
        n >= 10 ==> decimal(n)[0] != '0',
        decimal(n) == decimal(m) ==> n == m,
{
    reveal_strlit("0123456789");
    lemma_decimal_digits(n);
    lemma_decimal_digits(m);
    lemma_no_leading_zero(n);
}

proof fn lemma_no_leading_zero(n: nat)
    ensures
        n > 0 ==> decimal(n)[0] != '0',
    decreases n,
{
    if n >= 10 {
        lemma_no_leading_zero(n / 10);
        lemma_decimal_digits(n / 10);
        assert(decimal(n)[0] == decimal(n / 10)[0]);
    }
}

/// A number is read from decimal digits, with or without a `+` before them, and from
/// nothing else: no blanks, no sign but that, no empty text, nothing too large.
pub proof fn law_numbers_are_read(s: Seq<char>, n: u32)
    ensures
        u32_of(decimal(n as nat)) == Some(n),
        u32_of(seq!['+'] + decimal(n as nat)) == Some(n),
        s.len() == 0 ==> u32_of(s) is None,
        (exists|i: int| 0 < i < s.len() && !('0' <= s[i] && s[i] <= '9')) ==> u32_of(s) is None,
        s.len() > 0 && !('0' <= s[0] && s[0] <= '9') && s[0] != '+' ==> u32_of(s) is None,
        s =~= seq!['+'] ==> u32_of(s) is None,
{
    law_decimal_reads_back(n);
    lemma_decimal_digits(n as nat);
    let plus = seq!['+'] + decimal(n as nat);
    assert(plus.drop_first() =~= decimal(n as nat));
    if exists|i: int| 0 < i < s.len() && !('0' <= s[i] && s[i] <= '9') {
        let i = choose|i: int| 0 < i < s.len() && !('0' <= s[i] && s[i] <= '9');
        if s[0] == '+' {
            assert(s.drop_first()[i - 1] == s[i]);
        }
    }
}

/// Numbers that are too large are not read: one more digit makes ten times the number
/// and the digit.
pub proof fn law_digits_count_by_tens(s: Seq<char>, d: char)
    requires
        s.len() > 0,
        all_digits(s),
        '0' <= d <= '9',
    ensures
        u32_of(s) is None ==> u32_of(s.push(d)) is None,
        u32_of(s) matches Some(n) ==> u32_of(s.push(d)) == if n * 10 + (d as u32 - 48)
            <= 0xffff_ffff {
            Some((n * 10 + (d as u32 - 48)) as u32)
        } else {
            None
        },
{
    let t = s.push(d);
    assert(t.drop_last() =~= s);
    assert(all_digits(t)) by {
        assert forall|i: int| 0 <= i < t.len() implies '0' <= #[trigger] t[i] && t[i] <= '9' by {
            if i < s.len() {
                assert(t[i] == s[i]);
            }
        }
    }
    assert(s[0] != '+');
    assert(t[0] == s[0]);
}

/// Making a text small leaves everything alone but the letters `A` to `Z`, each of
/// which becomes the small letter at the same place of the alphabet.
pub proof fn law_lower_case(s: Seq<char>)
    ensures
        lower(s).len() == s.len(),
        forall|i: int|
            0 <= i < s.len() ==> {
                &&& !('A' <= s[i] && s[i] <= 'Z') ==> #[trigger] lower(s)[i] == s[i]
                &&& 'A' <= s[i] && s[i] <= 'Z' ==> 'a' <= lower(s)[i] <= 'z' && lower(s)[i] as int
                    - 'a' as int == s[i] as int - 'A' as int
            },
        lower(lower(s)) == lower(s),
{
    assert(lower(lower(s)) =~= lower(s));
}

/// Blanks, tabs and line ends are white space; visible ASCII characters are not.
pub proof fn law_white_space(c: char)
    ensures
        c == ' ' || c == '\t' || c == '\n' || c == '\r' ==> is_white(c),
        '!' <= c && c <= '~' ==> !is_white(c),
{
}

/// A trimmed text is what is left of a text when white space is taken off both ends,
/// as much as there is.
pub proof fn law_trimming(s: Seq<char>) -> (r: (int, int))
    ensures
        0 <= r.0 <= r.1 <= s.len(),
        trimmed(s) == s.subrange(r.0, r.1),
        forall|i: int| 0 <= i < r.0 || r.1 <= i < s.len() ==> is_white(#[trigger] s[i]),
        trimmed(s).len() > 0 ==> !is_white(trimmed(s).first()) && !is_white(trimmed(s).last()),
{
    let a = lemma_trim_start(s);
    let t = trim_start(s);
    let b = lemma_trim_end(t);
    assert(trimmed(s) =~= s.subrange(a, a + b));
    assert forall|i: int| 0 <= i < a || a + b <= i < s.len() implies is_white(#[trigger] s[i]) by {
        if i >= a + b {
            assert(t[i - a] == s[i]);
        }
    }
    if b > 0 {
        assert(trimmed(s).first() == t[0]);
    }
    (a, a + b)
}

proof fn lemma_trim_start(s: Seq<char>) -> (a: int)
    ensures
        0 <= a <= s.len(),
        trim_start(s) == s.skip(a),
        forall|i: int| 0 <= i < a ==> is_white(#[trigger] s[i]),
        a < s.len() ==> !is_white(s[a]),
    decreases s.len(),
{
    if s.len() > 0 && is_white(s[0]) {
        let t = s.drop_first();
        let a = lemma_trim_start(t);
        assert(s.skip(a + 1) =~= t.skip(a));
        assert forall|i: int| 0 <= i < a + 1 implies is_white(#[trigger] s[i]) by {
            if i > 0 {
                assert(t[i - 1] == s[i]);
            }
        }
        a + 1
    } else {
        assert(s.skip(0) =~= s);
        0
    }
}

proof fn lemma_trim_end(s: Seq<char>) -> (b: int)
    ensures
        0 <= b <= s.len(),
        trim_end(s) == s.take(b),
        forall|i: int| b <= i < s.len() ==> is_white(#[trigger] s[i]),
        b > 0 ==> !is_white(s[b - 1]),
    decreases s.len(),
{
    if s.len() > 0 && is_white(s.last()) {
        let t = s.drop_last();
        let b = lemma_trim_end(t);
        assert(s.take(b) =~= t.take(b));
        assert forall|i: int| b <= i < s.len() implies is_white(#[trigger] s[i]) by {
            if i < t.len() {
                assert(t[i] == s[i]);
            }
        }
        b
    } else {
        assert(s.take(s.len() as int) =~= s);
        s.len() as int
    }
}

/// A text is split at the first separator: what stands before it holds none, and what
/// stands behind it is split on. A text without a separator is its own only part.
pub proof fn law_splitting(a: Seq<char>, b: Seq<char>, sep: char)
    requires
        !a.contains(sep),
    ensures
        split(a, sep) == seq![a],
        split(a.push(sep) + b, sep) == seq![a] + split(b, sep),
        split_once(a, sep) is None,
        split_once(a.push(sep) + b, sep) == Some((a, b)),
{
    let s = a.push(sep) + b;
    let i = a.len() as int;
    assert(s[i] == sep);
    assert forall|j: int| 0 <= j < i implies s[j] != sep by {
        assert(s[j] == a[j]);
        assert(a.contains(a[j]));
    }
    lemma_first_at_unique(s, sep, i);
    assert(s.take(i) =~= a);
    assert(s.skip(i + 1) =~= b);
    lemma_first_at(a, sep);
}

/// What stands behind the last separator holds none, and it is all that stands there.
pub proof fn law_after_the_last(a: Seq<char>, b: Seq<char>, sep: char)
    requires
        !b.contains(sep),
    ensures
        after_last(b, sep) == b,
        after_last(a.push(sep) + b, sep) == b,
    decreases b.len(),
{
    if b.len() > 0 {
        let c = b.drop_last();
        assert(!c.contains(sep)) by {
            if c.contains(sep) {
                let j = choose|j: int| 0 <= j < c.len() && c[j] == sep;
                assert(b[j] == sep);
            }
        }
        law_after_the_last(a, c, sep);
        assert(b.contains(b.last()));
        assert((a.push(sep) + b).drop_last() =~= a.push(sep) + c);
        assert(c.push(b.last()) =~= b);
    } else {
        assert(a.push(sep) + b =~= a.push(sep));
        assert(b =~= Seq::<char>::empty());
    }
}

/// A text holds a part exactly where some stretch of it is that part; it begins with a
/// part where the first stretch is.
pub proof fn law_holding(s: Seq<char>, part: Seq<char>)
    ensures
        holds(s, part) <==> exists|i: int|
            0 <= i && i + part.len() <= s.len() && #[trigger] s.subrange(i, i + part.len()) == part,
        begins(s, part) <==> part.len() <= s.len() && s.subrange(0, part.len() as int) == part,
{
    if holds(s, part) {
        let i = choose|i: int| #![trigger s.skip(i)] 0 <= i <= s.len() && begins(s.skip(i), part);
        assert(s.subrange(i, i + part.len()) =~= s.skip(i).take(part.len() as int));
    }
    if exists|i: int|
        0 <= i && i + part.len() <= s.len() && #[trigger] s.subrange(i, i + part.len()) == part {
        let i = choose|i: int|
            0 <= i && i + part.len() <= s.len() && #[trigger] s.subrange(i, i + part.len()) == part;
        assert(s.skip(i).take(part.len() as int) =~= s.subrange(i, i + part.len()));
        assert(begins(s.skip(i), part));
    }
    if part.len() <= s.len() {
        assert(s.take(part.len() as int) =~= s.subrange(0, part.len() as int));
    }
}

/// Of two texts with the same head the shorter comes first where it is that head, and
/// else the one whose next character is smaller.
pub proof fn law_order_of_texts(head: Seq<char>, a: Seq<char>, b: Seq<char>)
    ensures
        text_le(head, head + b),
        a.len() > 0 && b.len() > 0 && a[0] != b[0] ==> text_le(head + a, head + b) == (a[0] < b[0]),
        a.len() > 0 ==> !text_le(head + a, head),
    decreases head.len(),
{
    if head.len() > 0 {
        let h = head.drop_first();
        law_order_of_texts(h, a, b);
        assert((head + a).drop_first() =~= h + a);
        assert((head + b).drop_first() =~= h + b);
    } else {
        assert(head + a =~= a);
        assert(head + b =~= b);
    }
}

/// Text in a sequence, an option, a result or a pair is shown in its place.
pub proof fn law_texts_are_shown_in_place(v: Seq<String>, a: String, b: String)
    ensures
        texts(v).len() == v.len(),
        forall|i: int| 0 <= i < v.len() ==> #[trigger] texts(v)[i] == v[i]@,
        opt_text(Some(a)) == Some(a@),
        opt_text(None) is None,
        result_text(Ok(a)) == Ok::<Seq<char>, Seq<char>>(a@),
        result_text(Err(a)) == Err::<Seq<char>, Seq<char>>(a@),
        pair_text(Some((a, b))) == Some((a@, b@)),
        pair_text(None) is None,
{
}

} // verus!
