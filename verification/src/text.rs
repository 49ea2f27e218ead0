//! Text building and scanning over the characters of a string.

use vstd::prelude::*;

verus! {

/// The character of the decimal digit `d`.
pub open spec fn digit_char(d: int) -> char {
    (48 + d) as char
}

/// `n` in decimal, without leading zeros.
pub open spec fn decimal(n: nat) -> Seq<char>
    decreases n,
{
    if n < 10 {
        seq![digit_char(n as int)]
    } else {
        decimal(n / 10).push(digit_char((n % 10) as int))
    }
}

/// `i` in decimal, with a minus sign when it is negative.
pub open spec fn decimal_int(i: int) -> Seq<char> {
    if i < 0 {
        seq!['-'] + decimal((-i) as nat)
    } else {
        decimal(i as nat)
    }
}

/// `i` in decimal, always with its sign.
pub open spec fn signed_decimal(i: int) -> Seq<char> {
    if i < 0 {
        decimal_int(i)
    } else {
        seq!['+'] + decimal(i as nat)
    }
}

/// `s` with spaces in front of it, `width` characters wide at least.
pub open spec fn pad_left(s: Seq<char>, width: nat) -> Seq<char> {
    if s.len() < width {
        Seq::new((width - s.len()) as nat, |i: int| ' ') + s
    } else {
        s
    }
}

/// The lower-case hexadecimal digit of `d`.
pub open spec fn hex_char(d: int) -> char {
    if d < 10 {
        (48 + d) as char
    } else {
        (87 + d) as char
    }
}

/// The lowest `digits` hexadecimal digits of `n`, most significant first.
pub open spec fn hex(n: nat, digits: nat) -> Seq<char>
    decreases digits,
{
    if digits == 0 {
        Seq::empty()
    } else {
        hex(n / 16, (digits - 1) as nat).push(hex_char((n % 16) as int))
    }
}

/// `"true"` or `"false"`.
pub open spec fn bool_text(b: bool) -> Seq<char> {
    if b {
        "true"@
    } else {
        "false"@
    }
}

/// Whether `needle` stands in `hay` at `at`.
pub open spec fn occurs_at(hay: Seq<char>, needle: Seq<char>, at: int) -> bool {
    0 <= at && at + needle.len() <= hay.len() && hay.subrange(at, at + needle.len()) == needle
}

/// Whether `needle` stands anywhere in `hay`.
pub open spec fn occurs(hay: Seq<char>, needle: Seq<char>) -> bool {
    exists|at: int| occurs_at(hay, needle, at)
}

/// `s` with every non-overlapping occurrence of `from`, taken left to right, replaced by `to`.
pub open spec fn replaced(s: Seq<char>, from: Seq<char>, to: Seq<char>) -> Seq<char>
    decreases s.len(),
{
    if s.len() == 0 || from.len() == 0 {
        s
    } else if occurs_at(s, from, 0) {
        to + replaced(s.skip(from.len() as int), from, to)
    } else {
        seq![s[0]] + replaced(s.skip(1), from, to)
    }
}

/// Whether `c` has the Unicode property `White_Space`.
pub open spec fn is_white_space(c: char) -> bool {
    ||| '\t' <= c <= '\r'
    ||| c == ' '
    ||| c == '\u{85}'
    ||| c == '\u{A0}'
    ||| c == '\u{1680}'
    ||| '\u{2000}' <= c <= '\u{200A}'
    ||| c == '\u{2028}'
    ||| c == '\u{2029}'
    ||| c == '\u{202F}'
    ||| c == '\u{205F}'
    ||| c == '\u{3000}'
}

/// `s` without the white space at its front.
pub open spec fn trimmed_front(s: Seq<char>) -> Seq<char>
    decreases s.len(),
{
    if s.len() > 0 && is_white_space(s[0]) {
        trimmed_front(s.skip(1))
    } else {
        s
    }
}

/// `s` without the white space at its end.
pub open spec fn trimmed_back(s: Seq<char>) -> Seq<char>
    decreases s.len(),
{
    if s.len() > 0 && is_white_space(s.last()) {
        trimmed_back(s.drop_last())
    } else {
        s
    }
}

/// `s` without the white space at either end.
pub open spec fn trimmed(s: Seq<char>) -> Seq<char> {
    trimmed_back(trimmed_front(s))
}

/// What `str::to_lowercase` makes of a text.
pub uninterp spec fn lowercase(s: Seq<char>) -> Seq<char>;

/// What `String::from_utf8_lossy` reads from bytes.
pub uninterp spec fn lossy_text(b: Seq<u8>) -> Seq<char>;

/// `String::push`: appends one character to the string.
#[verifier::external_body]
pub(crate) fn push_char(s: &mut String, c: char)
    ensures
        final(s)@ == old(s)@.push(c),
{
    s.push(c)
}

/// Whether `c` is white space.
fn char_is_white_space(c: char) -> (r: bool)
    ensures
        r == is_white_space(c),
{
    ('\t' <= c && c <= '\r') || c == ' ' || c == '\u{85}' || c == '\u{A0}' || c == '\u{1680}' || (
    '\u{2000}' <= c && c <= '\u{200A}') || c == '\u{2028}' || c == '\u{2029}' || c == '\u{202F}' || c
        == '\u{205F}' || c == '\u{3000}'
}

/// Whether every character is in ASCII.
pub open spec fn is_ascii_text(s: Seq<char>) -> bool {
    forall|i: int| 0 <= i < s.len() ==> #[trigger] s[i] <= '\u{7F}'
}

/// `str::to_lowercase`: the Unicode lower-case mapping of the whole text, which depends on the
/// text alone and is here only named. In an ASCII text `A` to `Z` become `a` to `z`, and the rest
/// stays.
#[verifier::external_body]
pub(crate) fn to_lower(s: &str) -> (r: String)
    ensures
        r@ == lowercase(s@),
        is_ascii_text(s@) ==> r@ == crate::config::ascii_lowered(s@),
{
    s.to_lowercase()
}

/// `String::from_utf8_lossy`: decodes UTF-8, putting a replacement character where the bytes are
/// not valid. Valid bytes are decoded exactly; the treatment of invalid ones is only named.
#[verifier::external_body]
pub(crate) fn from_utf8_lossy(b: &[u8]) -> (r: String)
    ensures
        r@ == lossy_text(b@),
        vstd::utf8::valid_utf8(b@) ==> r@ == vstd::utf8::decode_utf8(b@),
{
    String::from_utf8_lossy(b).into_owned()
}

/// The characters of `s`.
pub fn chars_of(s: &str) -> (v: Vec<char>)
    ensures
        v@ == s@,
{
    let mut v: Vec<char> = Vec::new();
    for c in it: s.chars()
        invariant
            it.seq() == s@,
            v@ == s@.take(it.index() as int),
    {
        assert(s@.take(it.index() as int).push(c) =~= s@.take(it.index() + 1));
        v.push(c);
    }
    assert(s@.take(s@.len() as int) =~= s@);
    v
}

/// The string of the characters `v[from..to]`.
pub fn string_of(v: &[char], from: usize, to: usize) -> (s: String)
    requires
        from <= to <= v@.len(),
    ensures
        s@ == v@.subrange(from as int, to as int),
{
    let mut s = String::new();
    let mut i: usize = from;
    while i < to
        invariant
            from <= i <= to <= v@.len(),
            s@ == v@.subrange(from as int, i as int),
        decreases to - i,
    {
        push_char(&mut s, v[i]);
        assert(v@.subrange(from as int, i as int).push(v@[i as int]) =~= v@.subrange(
            from as int,
            i + 1,
        ));
        i += 1;
    }
    s
}

fn digit(d: u64) -> (c: char)
    requires
        d < 10,
    ensures
        c == digit_char(d as int),
{
    ((48 + d) as u8) as char
}

/// Appends `n` in decimal.
pub fn append_decimal(s: &mut String, n: u64)
    ensures
        final(s)@ == old(s)@ + decimal(n as nat),
    decreases n,
{
    if n >= 10 {
        append_decimal(s, n / 10);
    }
    push_char(s, digit(n % 10));
    assert(s@ =~= old(s)@ + decimal(n as nat));
}

/// Appends `i` in decimal.
pub fn append_decimal_int(s: &mut String, i: i64)
    ensures
        final(s)@ == old(s)@ + decimal_int(i as int),
{
    if i < 0 {
        push_char(s, '-');
        append_decimal(s, (-(i as i128)) as u64);
        assert(s@ =~= old(s)@ + decimal_int(i as int));
    } else {
        append_decimal(s, i as u64);
    }
}

/// Appends `i` in decimal with its sign.
pub fn append_signed(s: &mut String, i: i64)
    ensures
        final(s)@ == old(s)@ + signed_decimal(i as int),
{
    if i < 0 {
        append_decimal_int(s, i);
    } else {
        push_char(s, '+');
        append_decimal(s, i as u64);
        assert(s@ =~= old(s)@ + signed_decimal(i as int));
    }
}

/// Appends `b` as `true` or `false`.
pub fn append_bool(s: &mut String, b: bool)
    ensures
        final(s)@ == old(s)@ + bool_text(b),
{
    if b {
        s.append("true");
    } else {
        s.append("false");
    }
}

/// `n` in decimal.
pub fn decimal_text(n: u64) -> (s: String)
    ensures
        s@ == decimal(n as nat),
{
    let mut s = String::new();
    append_decimal(&mut s, n);
    assert(Seq::<char>::empty() + decimal(n as nat) =~= decimal(n as nat));
    s
}

/// `s` with spaces in front of it, `width` characters wide at least.
pub fn padded_left(s: &str, width: usize) -> (r: String)
    ensures
        r@ == pad_left(s@, width as nat),
{
    let n: usize = s.unicode_len();
    let mut r = String::new();
    if n >= width {
        r.append(s);
        assert(r@ =~= s@);
        return r;
    }
    let mut i: usize = 0;
    while i < width - n
        invariant
            n == s@.len(),
            n < width,
            i <= width - n,
            r@ == Seq::new(i as nat, |k: int| ' '),
        decreases width - n - i,
    {
        push_char(&mut r, ' ');
        i += 1;
        assert(r@ =~= Seq::new(i as nat, |k: int| ' '));
    }
    r.append(s);
    r
}

fn hex_digit(d: u64) -> (c: char)
    requires
        d < 16,
    ensures
        c == hex_char(d as int),
{
    if d < 10 {
        ((48 + d) as u8) as char
    } else {
        ((87 + d) as u8) as char
    }
}

/// Appends the lowest `digits` hexadecimal digits of `n`.
pub fn append_hex(s: &mut String, n: u64, digits: u8)
    ensures
        final(s)@ == old(s)@ + hex(n as nat, digits as nat),
    decreases digits,
{
    if digits > 0 {
        append_hex(s, n / 16, digits - 1);
        push_char(s, hex_digit(n % 16));
    }
    assert(s@ =~= old(s)@ + hex(n as nat, digits as nat));
}

fn matches_at(hay: &[char], needle: &[char], at: usize) -> (r: bool)
    requires
        at <= hay@.len(),
    ensures
        r == occurs_at(hay@, needle@, at as int),
{
    let size: usize = hay.len();
    if needle.len() > size - at {
        return false;
    }
    let mut i: usize = 0;
    while i < needle.len()
        invariant
            at + needle@.len() <= size,
            size == hay@.len(),
            i <= needle@.len(),
            forall|k: int| 0 <= k < i ==> hay@[at + k] == needle@[k],
        decreases needle@.len() - i,
    {
        if hay[at + i] != needle[i] {
            assert(hay@.subrange(at as int, at + needle@.len())[i as int] != needle@[i as int]);
            return false;
        }
        i += 1;
    }
    assert(hay@.subrange(at as int, at + needle@.len()) =~= needle@);
    true
}

/// Whether `needle` stands anywhere in `hay`.
pub fn contains(hay: &str, needle: &str) -> (r: bool)
    ensures
        r == occurs(hay@, needle@),
{
    let h = chars_of(hay);
    let n = chars_of(needle);
    let mut at: usize = 0;
    while at <= h.len()
        invariant
            h@ == hay@,
            n@ == needle@,
            at <= h@.len() + 1,
            forall|k: int| 0 <= k < at ==> !occurs_at(hay@, needle@, k),
        decreases h@.len() + 1 - at,
    {
        if matches_at(h.as_slice(), n.as_slice(), at) {
            return true;
        }
        if at == h.len() {
            return false;
        }
        at += 1;
    }
    false
}

/// Whether `s` begins with `prefix`.
pub fn starts_with(s: &str, prefix: &str) -> (r: bool)
    ensures
        r == prefix@.is_prefix_of(s@),
{
    let h = chars_of(s);
    let n = chars_of(prefix);
    assert(occurs_at(s@, prefix@, 0) == prefix@.is_prefix_of(s@)) by {
        if prefix@.len() <= s@.len() {
            assert(s@.subrange(0, prefix@.len() as int) =~= s@.take(prefix@.len() as int));
        }
    }
    matches_at(h.as_slice(), n.as_slice(), 0)
}

/// Whether two texts hold the same characters.
pub fn same_text(a: &str, b: &str) -> (r: bool)
    ensures
        r == (a@ == b@),
{
    let h = chars_of(a);
    let n = chars_of(b);
    if h.len() != n.len() {
        return false;
    }
    assert(a@.subrange(0, b@.len() as int) =~= a@);
    matches_at(h.as_slice(), n.as_slice(), 0)
}

/// `s` with every non-overlapping occurrence of `from`, left to right, replaced by `to`.
pub fn replace_all(s: &str, from: &str, to: &str) -> (r: String)
    requires
        from@.len() > 0,
    ensures
        r@ == replaced(s@, from@, to@),
{
    let h = chars_of(s);
    let f = chars_of(from);
    let mut r = String::new();
    let mut i: usize = 0;
    assert(s@.skip(0) =~= s@);
    assert(r@ + replaced(s@, from@, to@) =~= replaced(s@, from@, to@));
    while i < h.len()
        invariant
            h@ == s@,
            f@ == from@,
            f@.len() > 0,
            i <= h@.len(),
            replaced(s@, from@, to@) == r@ + replaced(s@.skip(i as int), from@, to@),
        decreases h@.len() - i,
    {
        let ghost rest = s@.skip(i as int);
        let ghost before = r@;
        assert(occurs_at(rest, from@, 0) == occurs_at(s@, from@, i as int)) by {
            if i + from@.len() <= s@.len() {
                assert(rest.subrange(0, from@.len() as int) =~= s@.subrange(
                    i as int,
                    i + from@.len(),
                ));
            }
        }
        if matches_at(h.as_slice(), f.as_slice(), i) {
            r.append(to);
            i += f.len();
            assert(rest.skip(from@.len() as int) =~= s@.skip(i as int));
            assert(before + (to@ + replaced(s@.skip(i as int), from@, to@)) =~= r@ + replaced(
                s@.skip(i as int),
                from@,
                to@,
            ));
        } else {
            push_char(&mut r, h[i]);
            i += 1;
            assert(rest.skip(1) =~= s@.skip(i as int));
            assert(before + (seq![rest[0]] + replaced(s@.skip(i as int), from@, to@)) =~= r@
                + replaced(s@.skip(i as int), from@, to@));
        }
    }
    assert(s@.skip(i as int) =~= Seq::<char>::empty());
    assert(r@ + Seq::<char>::empty() =~= r@);
    r
}

/// `s` without the white space at either end.
pub fn trim(s: &str) -> (r: String)
    ensures
        r@ == trimmed(s@),
{
    let v = chars_of(s);
    let mut from: usize = 0;
    assert(s@.skip(0) =~= s@);
    while from < v.len() && char_is_white_space(v[from])
        invariant
            v@ == s@,
            from <= v@.len(),
            trimmed_front(s@) == trimmed_front(s@.skip(from as int)),
        decreases v@.len() - from,
    {
        assert(s@.skip(from as int).skip(1) =~= s@.skip(from + 1));
        from += 1;
    }
    let ghost front = s@.skip(from as int);
    assert(trimmed_front(s@) == front);
    let mut to: usize = v.len();
    assert(s@.subrange(from as int, to as int) =~= front);
    while to > from && char_is_white_space(v[to - 1])
        invariant
            v@ == s@,
            from <= to <= v@.len(),
            trimmed_back(front) == trimmed_back(s@.subrange(from as int, to as int)),
        decreases to,
    {
        assert(s@.subrange(from as int, to as int).drop_last() =~= s@.subrange(
            from as int,
            to - 1,
        ));
        to -= 1;
    }
    string_of(v.as_slice(), from, to)
}

/// Whether `s` holds nothing but white space.
pub fn is_blank(s: &str) -> (r: bool)
    ensures
        r == (trimmed(s@).len() == 0),
{
    let t = trim(s);
    t.as_str().is_empty()
}

/// Whether `a` comes before `b` in the order of the characters' code points.
pub open spec fn before(a: Seq<char>, b: Seq<char>) -> bool
    decreases b.len(),
{
    if b.len() == 0 {
        false
    } else if a.len() == 0 {
        true
    } else if a[0] != b[0] {
        a[0] < b[0]
    } else {
        before(a.skip(1), b.skip(1))
    }
}

/// Whether `a` comes before `b` in the order of the characters' code points.
pub fn comes_before(a: &str, b: &str) -> (r: bool)
    ensures
        r == before(a@, b@),
{
    let x = chars_of(a);
    let y = chars_of(b);
    let mut i: usize = 0;
    assert(a@.skip(0) =~= a@);
    assert(b@.skip(0) =~= b@);
    loop
        invariant
            x@ == a@,
            y@ == b@,
            i <= x@.len(),
            i <= y@.len(),
            before(a@, b@) == before(a@.skip(i as int), b@.skip(i as int)),
        decreases x@.len() - i,
    {
        if i >= y.len() {
            return false;
        }
        if i >= x.len() {
            return true;
        }
        if x[i] != y[i] {
            return x[i] < y[i];
        }
        assert(a@.skip(i as int).skip(1) =~= a@.skip(i + 1));
        assert(b@.skip(i as int).skip(1) =~= b@.skip(i + 1));
        i += 1;
    }
}

/// No text comes before itself, and of two texts at most one comes before the other.
pub proof fn lemma_before_asymmetric(a: Seq<char>, b: Seq<char>)
    ensures
        !(before(a, b) && before(b, a)),
    decreases b.len(),
{
    if a.len() > 0 && b.len() > 0 && a[0] == b[0] {
        lemma_before_asymmetric(a.skip(1), b.skip(1));
    }
}

/// A text that does not come before a second, which does not come before a third, does not come
/// before the third either.
pub proof fn lemma_not_before_transitive(a: Seq<char>, b: Seq<char>, c: Seq<char>)
    requires
        !before(b, a),
        !before(c, b),
    ensures
        !before(c, a),
    decreases a.len(),
{
    if a.len() > 0 && b.len() > 0 && c.len() > 0 && a[0] == b[0] && b[0] == c[0] {
        lemma_not_before_transitive(a.skip(1), b.skip(1), c.skip(1));
    }
}

/// Of two different texts one comes before the other.
pub proof fn lemma_before_total(a: Seq<char>, b: Seq<char>)
    ensures
        a == b || before(a, b) || before(b, a),
    decreases b.len(),
{
    if b.len() == 0 || a.len() == 0 {
        if a.len() == 0 && b.len() == 0 {
            assert(a =~= b);
        }
    } else if a[0] == b[0] {
        lemma_before_total(a.skip(1), b.skip(1));
        if a.skip(1) == b.skip(1) {
            assert(a =~= seq![a[0]] + a.skip(1));
            assert(b =~= seq![b[0]] + b.skip(1));
        }
    }
}

/// The order of texts is transitive.
pub proof fn lemma_before_transitive(a: Seq<char>, b: Seq<char>, c: Seq<char>)
    requires
        before(a, b),
        before(b, c),
    ensures
        before(a, c),
    decreases b.len(),
{
    if a.len() > 0 && a[0] == b[0] && b[0] == c[0] {
        lemma_before_transitive(a.skip(1), b.skip(1), c.skip(1));
    }
}

/// Whether `c` is a decimal digit.
pub open spec fn is_digit(c: char) -> bool {
    '0' <= c <= '9'
}

/// The number that decimal digits stand for.
pub open spec fn digits_value(s: Seq<char>) -> nat
    decreases s.len(),
{
    if s.len() == 0 {
        0
    } else {
        (10 * digits_value(s.drop_last()) + (s.last() as int - 48)) as nat
    }
}

/// The digits of an unsigned number: all of the text but a plus sign in front.
pub open spec fn number_digits(s: Seq<char>) -> Seq<char> {
    if s.len() > 0 && s[0] == '+' {
        s.skip(1)
    } else {
        s
    }
}

/// Whether the text is an unsigned number: digits, at least one, perhaps behind a plus sign.
pub open spec fn is_number(s: Seq<char>) -> bool {
    let d = number_digits(s);
    d.len() > 0 && forall|i: int| 0 <= i < d.len() ==> is_digit(#[trigger] d[i])
}

/// The unsigned number that a text states, if it states one that is at most `max`.
pub open spec fn number(s: Seq<char>, max: nat) -> Option<nat> {
    if is_number(s) && digits_value(number_digits(s)) <= max {
        Some(digits_value(number_digits(s)))
    } else {
        None
    }
}

/// Reads an unsigned number that is at most `max`.
pub fn parse_number(s: &str, max: u32) -> (r: Option<u32>)
    ensures
        match r {
            Some(n) => number(s@, max as nat) == Some(n as nat),
            None => number(s@, max as nat) is None,
        },
{
    let v = chars_of(s);
    let mut start: usize = 0;
    if v.len() > 0 && v[0] == '+' {
        start = 1;
    }
    let ghost d = number_digits(s@);
    assert(d =~= s@.skip(start as int));
    if start >= v.len() {
        return None;
    }
    let mut n: u64 = 0;
    let mut over = false;
    let mut i: usize = start;
    while i < v.len()
        invariant
            v@ == s@,
            start <= i <= v@.len(),
            d == s@.skip(start as int),
            d == number_digits(s@),
            forall|k: int| 0 <= k < i - start ==> is_digit(#[trigger] d[k]),
            over ==> digits_value(d.take(i - start)) > max,
            !over ==> n == digits_value(d.take(i - start)) && n <= max,
        decreases v@.len() - i,
    {
        let c: char = v[i];
        assert(d[i - start] == c);
        if !('0' <= c && c <= '9') {
            assert(!is_digit(d[i - start]));
            return None;
        }
        assert(d.take(i - start + 1).drop_last() =~= d.take(i - start));
        assert(is_digit(c));
        if !over {
            let digit: u64 = (c as u8 - 48) as u64;
            n = n * 10 + digit;
            if n > max as u64 {
                over = true;
            }
        }
        i += 1;
    }
    assert(d.take(i - start) =~= d);
    assert(is_number(s@));
    if over {
        None
    } else {
        Some(n as u32)
    }
}

proof fn lemma_digit_char(d: int)
    requires
        0 <= d < 10,
    ensures
        is_digit(digit_char(d)),
        digit_char(d) as int - 48 == d,
{
}

/// A number written in decimal is read back.
pub proof fn law_decimal_read_back(n: nat)
    ensures
        is_number(decimal(n)),
        number_digits(decimal(n)) == decimal(n),
        digits_value(decimal(n)) == n,
    decreases n,
{
    if n < 10 {
        lemma_digit_char(n as int);
        assert(decimal(n).drop_last() =~= Seq::<char>::empty());
        reveal_with_fuel(digits_value, 2);
    } else {
        let rest = decimal(n / 10);
        law_decimal_read_back(n / 10);
        lemma_digit_char((n % 10) as int);
        assert(decimal(n).drop_last() =~= rest);
        assert(decimal(n)[0] == rest[0]);
        assert(number_digits(rest) == rest);
        assert forall|i: int| 0 <= i < decimal(n).len()
            implies is_digit(#[trigger] decimal(n)[i]) by {
            if i < rest.len() {
                assert(decimal(n)[i] == rest[i]);
                assert(is_digit(rest[i]));
            }
        }
        assert(decimal(n)[0] != '+') by {
            assert(is_digit(rest[0]));
        }
    }
}

/// Decimal digits are written highest first: a further digit goes behind, and single digits stand for
/// themselves.
pub proof fn law_decimal_digits(n: nat, d: nat)
    requires
        d < 10,
    ensures
        decimal(d).len() == 1 && decimal(d)[0] as int == '0' as int + d,
        n > 0 ==> decimal(10 * n + d) == decimal(n) + decimal(d),
        n > 0 ==> decimal(n)[0] != '0',
    decreases n,
{
    assert((10 * n + d) / 10 == n && (10 * n + d) % 10 == d);
    assert(n > 0 ==> decimal(10 * n + d) =~= decimal(n) + decimal(d));
    if n >= 10 {
        law_decimal_digits(n / 10, n % 10);
    }
}

/// A number of any sign is told by its sign and its distance from zero.
pub proof fn law_signs(i: int)
    requires
        i > 0,
    ensures
        decimal_int(i) == decimal(i as nat),
        decimal_int(-i) == seq!['-'] + decimal_int(i),
        signed_decimal(i) == seq!['+'] + decimal_int(i),
        signed_decimal(-i) == decimal_int(-i),
        signed_decimal(0) == seq!['+', '0'],
{
    assert(signed_decimal(0) =~= seq!['+', '0']);
}

/// The value of a hexadecimal digit.
pub open spec fn hex_digit_value(c: char) -> int {
    if '0' <= c <= '9' {
        c as int - '0' as int
    } else {
        c as int - 'a' as int + 10
    }
}

/// Hexadecimal digits are written highest first, as many as were asked for: the digit at place `i`
/// from the end counts its `i`-th power of 16.
pub proof fn law_hex_digits(n: nat, digits: nat, d: nat)
    requires
        d < 16,
    ensures
        hex(n, digits).len() == digits,
        hex(16 * n + d, digits + 1) == hex(n, digits) + hex(d, 1),
        hex_digit_value(hex(d, 1)[0]) == d,
        forall|i: int|
            0 <= i < digits ==> {
                ||| '0' <= #[trigger] hex(n, digits)[i] <= '9'
                ||| 'a' <= hex(n, digits)[i] <= 'f'
            },
    decreases digits,
{
    assert((16 * n + d) / 16 == n && (16 * n + d) % 16 == d);
    reveal_with_fuel(hex, 2);
    assert(hex(d, 1) =~= seq![hex_char(d as int)]);
    if digits > 0 {
        law_hex_digits(n / 16, (digits - 1) as nat, d);
    }
    assert(hex(16 * n + d, digits + 1) =~= hex(n, digits) + hex(d, 1));
}

/// Padding goes in front and is spaces; a text that is wide enough stays.
pub proof fn law_padding(s: Seq<char>, width: nat)
    ensures
        s.len() >= width ==> pad_left(s, width) == s,
        s.len() < width ==> pad_left(s, width).len() == width,
        s.is_suffix_of(pad_left(s, width)),
        forall|i: int| 0 <= i < pad_left(s, width).len() - s.len() ==> pad_left(s, width)[i] == ' ',
{
    let p = pad_left(s, width);
    assert(p.subrange(p.len() - s.len(), p.len() as int) =~= s);
}

proof fn lemma_front(s: Seq<char>)
    ensures
        trimmed_front(s).len() <= s.len(),
        trimmed_front(s) == s.subrange(s.len() - trimmed_front(s).len(), s.len() as int),
        trimmed_front(s).len() > 0 ==> !is_white_space(trimmed_front(s)[0]),
        forall|i: int| 0 <= i < s.len() - trimmed_front(s).len() ==> is_white_space(#[trigger] s[i]),
    decreases s.len(),
{
    if s.len() > 0 && is_white_space(s[0]) {
        let t = s.skip(1);
        lemma_front(t);
        assert forall|i: int| 0 <= i < s.len() - trimmed_front(s).len() implies is_white_space(
            #[trigger] s[i],
        ) by {
            if i > 0 {
                assert(t[i - 1] == s[i]);
            }
        }
        assert(trimmed_front(s) =~= s.subrange(s.len() - trimmed_front(s).len(), s.len() as int));
    } else {
        assert(s =~= s.subrange(0, s.len() as int));
    }
}

proof fn lemma_back(s: Seq<char>)
    ensures
        trimmed_back(s).len() <= s.len(),
        trimmed_back(s) == s.subrange(0, trimmed_back(s).len() as int),
        trimmed_back(s).len() > 0 ==> !is_white_space(trimmed_back(s).last()),
        forall|i: int| trimmed_back(s).len() <= i < s.len() ==> is_white_space(#[trigger] s[i]),
    decreases s.len(),
{
    if s.len() > 0 && is_white_space(s.last()) {
        let t = s.drop_last();
        lemma_back(t);
        assert forall|i: int| trimmed_back(s).len() <= i < s.len() implies is_white_space(
            #[trigger] s[i],
        ) by {
            if i < t.len() {
                assert(t[i] == s[i]);
            }
        }
        assert(trimmed_back(s) =~= s.subrange(0, trimmed_back(s).len() as int));
    } else {
        assert(s =~= s.subrange(0, s.len() as int));
    }
}

/// Trimming takes away white space at both ends and nothing else: what is left begins and ends with
/// something else, and what went was white space.
pub proof fn law_trimming(s: Seq<char>) -> (at: int)
    ensures
        0 <= at && at + trimmed(s).len() <= s.len(),
        trimmed(s) == s.subrange(at, at + trimmed(s).len()),
        trimmed(s).len() > 0 ==> !is_white_space(trimmed(s)[0]) && !is_white_space(trimmed(s).last()),
        forall|i: int|
            (0 <= i < at || at + trimmed(s).len() <= i < s.len()) ==> is_white_space(#[trigger] s[i]),
{
    lemma_front(s);
    let f = trimmed_front(s);
    lemma_back(f);
    let at = s.len() - f.len();
    assert forall|i: int|
        (0 <= i < at || at + trimmed(s).len() <= i < s.len()) implies is_white_space(
        #[trigger] s[i],
    ) by {
        if i >= at {
            assert(f[i - at] == s[i]);
        }
    }
    assert(trimmed(s) =~= s.subrange(at, at + trimmed(s).len()));
    at
}

/// White space is what separates words: spaces, tabs and line ends are, letters, digits and printable
/// signs of ASCII are not.
pub proof fn law_white_space(c: char)
    ensures
        is_white_space(' ') && is_white_space('\t') && is_white_space('\n') && is_white_space('\r'),
        '!' <= c <= '~' ==> !is_white_space(c),
        is_white_space('\u{A0}') && is_white_space('\u{3000}'),
        c == '\u{200B}' ==> !is_white_space(c),
{
}

/// A text in which `from` does not stand stays as it is, and where it stands in front it is
/// replaced and the rest is gone through behind it.
pub proof fn law_replacing(s: Seq<char>, from: Seq<char>, to: Seq<char>)
    requires
        from.len() > 0,
    ensures
        !occurs(s, from) ==> replaced(s, from, to) == s,
        replaced(from + s, from, to) == to + replaced(s, from, to),
    decreases s.len(),
{
    let whole = from + s;
    assert(whole.subrange(0, from.len() as int) =~= from);
    assert(occurs_at(whole, from, 0));
    assert(whole.skip(from.len() as int) =~= s);
    if s.len() > 0 && !occurs(s, from) {
        assert(!occurs_at(s, from, 0));
        let rest = s.skip(1);
        assert(!occurs(rest, from)) by {
            if occurs(rest, from) {
                let at = choose|at: int| occurs_at(rest, from, at);
                assert(s.subrange(at + 1, at + 1 + from.len()) =~= rest.subrange(
                    at,
                    at + from.len(),
                ));
                assert(occurs_at(s, from, at + 1));
            }
        }
        law_replacing(rest, from, to);
        assert(seq![s[0]] + rest =~= s);
    }
}

proof fn lemma_not_before_itself(a: Seq<char>)
    ensures
        !before(a, a),
    decreases a.len(),
{
    if a.len() > 0 {
        lemma_not_before_itself(a.skip(1));
    }
}

/// The order of texts is the one of a dictionary: the first place where they differ decides, and a
/// text comes before its own continuations.
pub proof fn law_dictionary_order(common: Seq<char>, a: Seq<char>, b: Seq<char>)
    ensures
        before(common + a, common + b) == before(a, b),
        a.len() > 0 ==> before(Seq::empty(), a) && !before(a, Seq::empty()),
        a.len() > 0 && b.len() > 0 && a[0] < b[0] ==> before(a, b) && !before(b, a),
        !before(a, a),
        before(a, b) ==> !before(b, a),
        a != b ==> before(a, b) || before(b, a),
    decreases common.len() + a.len() + b.len(),
{
    lemma_not_before_itself(a);
    if common.len() > 0 {
        let x = common + a;
        let y = common + b;
        assert(x.skip(1) =~= common.skip(1) + a);
        assert(y.skip(1) =~= common.skip(1) + b);
        law_dictionary_order(common.skip(1), a, b);
    } else {
        assert(common + a =~= a);
        assert(common + b =~= b);
        if a.len() > 0 && b.len() > 0 {
            law_dictionary_order(common, a.skip(1), b.skip(1));
            if a != b && a[0] == b[0] {
                assert(a.skip(1) != b.skip(1)) by {
                    if a.skip(1) == b.skip(1) {
                        assert(a =~= seq![a[0]] + a.skip(1));
                        assert(b =~= seq![b[0]] + b.skip(1));
                    }
                }
            }
        }
        if a.len() == 0 && b.len() == 0 {
            assert(a =~= b);
        }
    }
}

/// A text states a number only if it is all digits, but for one plus sign in front, and only up to
/// the largest that is wanted; the sign and leading zeros do not count.
pub proof fn law_numbers_are_read(s: Seq<char>, n: nat, max: nat)
    ensures
        n <= max ==> number(decimal(n), max) == Some(n),
        n > max ==> number(decimal(n), max) is None,
        n <= max ==> number(seq!['+'] + decimal(n), max) == Some(n),
        s.len() == 0 ==> number(s, max) is None,
        (exists|i: int| 1 <= i < s.len() && !is_digit(#[trigger] s[i])) ==> number(s, max) is None,
        s.len() > 0 && s[0] == '-' ==> number(s, max) is None,
{
    law_decimal_read_back(n);
    let signed = seq!['+'] + decimal(n);
    assert(signed.skip(1) =~= decimal(n));
    assert(number_digits(signed) == decimal(n));
    if exists|i: int| 1 <= i < s.len() && !is_digit(#[trigger] s[i]) {
        let i = choose|i: int| 1 <= i < s.len() && !is_digit(#[trigger] s[i]);
        let d = number_digits(s);
        if s[0] == '+' {
            assert(d[i - 1] == s[i]);
        } else {
            assert(d[i] == s[i]);
        }
    }
    if s.len() > 0 && s[0] == '-' {
        assert(number_digits(s)[0] == '-');
    }
}

/// Whether something stands in a text is told by where: in front, behind or anywhere in between.
pub proof fn law_found_wherever_it_stands(front: Seq<char>, needle: Seq<char>, behind: Seq<char>)
    ensures
        occurs(front + needle + behind, needle),
        needle.len() > front.len() ==> !occurs(front, needle),
{
    let whole = front + needle + behind;
    let at = front.len() as int;
    assert(whole.subrange(at, at + needle.len()) =~= needle);
    assert(occurs_at(whole, needle, at));
}

/// Replacing begins with the first place where `from` stands: what is in front of it stays, and the
/// rest is gone through behind it.
pub proof fn law_first_place_is_replaced(
    front: Seq<char>,
    from: Seq<char>,
    behind: Seq<char>,
    to: Seq<char>,
)
    requires
        from.len() > 0,
        forall|at: int| 0 <= at < front.len()
            ==> !#[trigger] occurs_at(front + from + behind, from, at),
    ensures
        replaced(front + from + behind, from, to) == front + to + replaced(behind, from, to),
    decreases front.len(),
{
    let whole = front + from + behind;
    if front.len() == 0 {
        assert(whole =~= from + behind);
        law_replacing(behind, from, to);
        assert(front + to + replaced(behind, from, to) =~= to + replaced(behind, from, to));
    } else {
        assert(!occurs_at(whole, from, 0));
        let rest = front.skip(1);
        let next = rest + from + behind;
        assert(whole.skip(1) =~= next);
        assert forall|at: int| 0 <= at < rest.len() implies !#[trigger] occurs_at(next, from, at) by {
            assert(!occurs_at(whole, from, at + 1));
            if occurs_at(next, from, at) {
                assert(whole.subrange(at + 1, at + 1 + from.len()) =~= next.subrange(
                    at,
                    at + from.len(),
                ));
            }
        }
        law_first_place_is_replaced(rest, from, behind, to);
        assert(seq![whole[0]] + (rest + to + replaced(behind, from, to)) =~= front + to + replaced(
            behind,
            from,
            to,
        ));
    }
}

/// What stands in a text stands in one that goes on behind it.
pub(crate) proof fn lemma_more(found: Seq<char>, more: Seq<char>, needle: Seq<char>)
    requires
        occurs(found, needle),
    ensures
        occurs(found + more, needle),
{
    let at = choose|at: int| occurs_at(found, needle, at);
    let whole = found + more;
    assert(whole.subrange(at, at + needle.len()) =~= found.subrange(at, at + needle.len()));
    assert(occurs_at(whole, needle, at));
}

/// What stands in a text stands in one that holds it.
pub(crate) proof fn lemma_within(front: Seq<char>, middle: Seq<char>, behind: Seq<char>, needle: Seq<char>)
    requires
        occurs(middle, needle),
    ensures
        occurs(front + middle + behind, needle),
{
    let whole = front + middle + behind;
    let at = choose|at: int| occurs_at(middle, needle, at);
    let n = front.len() as int;
    assert(whole.subrange(n + at, n + at + needle.len()) =~= middle.subrange(at, at + needle.len()));
    assert(occurs_at(whole, needle, n + at));
}

pub(crate) proof fn lemma_field(front: Seq<char>, key: Seq<char>, value: Seq<char>)
    ensures
        occurs(front + key + value, key + value),
{
    let whole = front + key + value;
    let needle = key + value;
    let at = front.len() as int;
    assert(whole.subrange(at, at + needle.len()) =~= needle);
    assert(occurs_at(whole, needle, at));
}

pub(crate) proof fn lemma_two_more(found: Seq<char>, a: Seq<char>, b: Seq<char>, needle: Seq<char>)
    requires
        occurs(found, needle),
    ensures
        occurs(found + a + b, needle),
{
    lemma_more(found, a, needle);
    lemma_more(found + a, b, needle);
}

/// `front` with four fields behind it.
pub(crate) open spec fn four_fields(
    front: Seq<char>,
    k: (Seq<char>, Seq<char>, Seq<char>, Seq<char>),
    v: (Seq<char>, Seq<char>, Seq<char>, Seq<char>),
) -> Seq<char> {
    front + k.0 + v.0 + k.1 + v.1 + k.2 + v.2 + k.3 + v.3
}

pub(crate) proof fn lemma_four_fields(
    front: Seq<char>,
    k: (Seq<char>, Seq<char>, Seq<char>, Seq<char>),
    v: (Seq<char>, Seq<char>, Seq<char>, Seq<char>),
)
    ensures
        occurs(four_fields(front, k, v), k.0 + v.0),
        occurs(four_fields(front, k, v), k.1 + v.1),
        occurs(four_fields(front, k, v), k.2 + v.2),
        occurs(four_fields(front, k, v), k.3 + v.3),
        forall|needle: Seq<char>|
            occurs(front, needle) ==> occurs(four_fields(front, k, v), needle),
{
    let a = front + k.0 + v.0;
    let b = a + k.1 + v.1;
    let c = b + k.2 + v.2;
    lemma_field(front, k.0, v.0);
    lemma_field(a, k.1, v.1);
    lemma_field(b, k.2, v.2);
    lemma_field(c, k.3, v.3);
    lemma_two_more(a, k.1, v.1, k.0 + v.0);
    lemma_two_more(b, k.2, v.2, k.0 + v.0);
    lemma_two_more(c, k.3, v.3, k.0 + v.0);
    lemma_two_more(b, k.2, v.2, k.1 + v.1);
    lemma_two_more(c, k.3, v.3, k.1 + v.1);
    lemma_two_more(c, k.3, v.3, k.2 + v.2);
    assert forall|needle: Seq<char>| occurs(front, needle) implies occurs(
        four_fields(front, k, v),
        needle,
    ) by {
        lemma_two_more(front, k.0, v.0, needle);
        lemma_two_more(a, k.1, v.1, needle);
        lemma_two_more(b, k.2, v.2, needle);
        lemma_two_more(c, k.3, v.3, needle);
    }
}

/// What is so is written as true, and what is not as false.
pub proof fn law_truth_is_written(b: bool)
    ensures
        bool_text(true) == "true"@,
        bool_text(false) == "false"@,
        bool_text(b) != bool_text(!b),
{
    reveal_strlit("true");
    reveal_strlit("false");
    assert("true"@.len() != "false"@.len());
}

} // verus!
