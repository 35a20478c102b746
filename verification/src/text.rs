use vstd::prelude::*;
use vstd::string::{StrSliceExecFns, StringSliceAdditionalSpecFns};
use vstd::utf8::valid_utf8;

verus! {

/// `String::push`: appends one character.
#[verifier::external_body]
pub(crate) fn push_char(s: &mut String, c: char)
    ensures
        final(s)@ == old(s)@.push(c),
{
    s.push(c)
}

/// `core::str::from_utf8`: the text that the bytes encode, where they are
/// well-formed UTF-8, and `None` where they are not.
#[verifier::external_body]
pub(crate) fn text_of(bytes: &[u8]) -> (text: Option<&str>)
    ensures
        text is Some <==> valid_utf8(bytes@),
        text is Some ==> text->0.spec_bytes() == bytes@,
{
    core::str::from_utf8(bytes).ok()
}

/// The character of a digit below sixteen, letters in lower case.
pub open spec fn digit_char(d: int) -> char {
    if d == 0 {
        '0'
    } else if d == 1 {
        '1'
    } else if d == 2 {
        '2'
    } else if d == 3 {
        '3'
    } else if d == 4 {
        '4'
    } else if d == 5 {
        '5'
    } else if d == 6 {
        '6'
    } else if d == 7 {
        '7'
    } else if d == 8 {
        '8'
    } else if d == 9 {
        '9'
    } else if d == 10 {
        'a'
    } else if d == 11 {
        'b'
    } else if d == 12 {
        'c'
    } else if d == 13 {
        'd'
    } else if d == 14 {
        'e'
    } else {
        'f'
    }
}

/// `n` in decimal, most significant digit first; one zero for zero.
pub open spec fn decimal(n: nat) -> Seq<char>
    decreases n,
{
    if n < 10 {
        seq![digit_char(n as int)]
    } else {
        decimal(n / 10).push(digit_char((n % 10) as int))
    }
}

/// `n` in hexadecimal, most significant digit first, letters in lower case.
pub open spec fn hex(n: nat) -> Seq<char>
    decreases n,
{
    if n < 16 {
        seq![digit_char(n as int)]
    } else {
        hex(n / 16).push(digit_char((n % 16) as int))
    }
}

/// `text` with `fill` in front of it until it has at least `width` characters.
pub open spec fn pad_left(text: Seq<char>, width: nat, fill: char) -> Seq<char> {
    if text.len() >= width {
        text
    } else {
        Seq::new((width - text.len()) as nat, |i: int| fill) + text
    }
}

/// `text` with spaces after it until it has at least `width` characters.
pub open spec fn pad_right(text: Seq<char>, width: nat) -> Seq<char> {
    if text.len() >= width {
        text
    } else {
        text + Seq::new((width - text.len()) as nat, |i: int| ' ')
    }
}

/// The character of a digit below sixteen.
pub fn digit_to_char(d: u8) -> (c: char)
    requires
        d < 16,
    ensures
        c == digit_char(d as int),
{
    if d == 0 {
        '0'
    } else if d == 1 {
        '1'
    } else if d == 2 {
        '2'
    } else if d == 3 {
        '3'
    } else if d == 4 {
        '4'
    } else if d == 5 {
        '5'
    } else if d == 6 {
        '6'
    } else if d == 7 {
        '7'
    } else if d == 8 {
        '8'
    } else if d == 9 {
        '9'
    } else if d == 10 {
        'a'
    } else if d == 11 {
        'b'
    } else if d == 12 {
        'c'
    } else if d == 13 {
        'd'
    } else if d == 14 {
        'e'
    } else {
        'f'
    }
}

/// The decimal digits of `n`.
pub fn decimal_of(n: u64) -> (out: Vec<char>)
    ensures
        out@ == decimal(n as nat),
    decreases n,
{
    if n < 10 {
        let mut out: Vec<char> = Vec::new();
        out.push(digit_to_char(n as u8));
        out
    } else {
        let mut out = decimal_of(n / 10);
        out.push(digit_to_char((n % 10) as u8));
        out
    }
}

/// The hexadecimal digits of `n`.
pub fn hex_of(n: u64) -> (out: Vec<char>)
    ensures
        out@ == hex(n as nat),
    decreases n,
{
    if n < 16 {
        let mut out: Vec<char> = Vec::new();
        out.push(digit_to_char(n as u8));
        out
    } else {
        let mut out = hex_of(n / 16);
        out.push(digit_to_char((n % 16) as u8));
        out
    }
}

/// Appends the characters of `chars`.
pub fn push_chars(s: &mut String, chars: &Vec<char>)
    ensures
        final(s)@ == old(s)@ + chars@,
{
    let mut i: usize = 0;
    while i < chars.len()
        invariant
            i <= chars@.len(),
            s@ == old(s)@ + chars@.take(i as int),
        decreases chars@.len() - i,
    {
        push_char(s, chars[i]);
        proof {
            assert(s@ =~= old(s)@ + chars@.take(i + 1));
        }
        i += 1;
    }
    proof {
        assert(chars@.take(i as int) =~= chars@);
    }
}

/// Appends `n` in decimal.
pub fn push_decimal(s: &mut String, n: u64)
    ensures
        final(s)@ == old(s)@ + decimal(n as nat),
{
    let d = decimal_of(n);
    push_chars(s, &d);
}

/// Appends `n` in hexadecimal, letters in lower case.
pub fn push_hex(s: &mut String, n: u64)
    ensures
        final(s)@ == old(s)@ + hex(n as nat),
{
    let d = hex_of(n);
    push_chars(s, &d);
}

/// Appends `fill` `count` times.
pub fn push_fill(s: &mut String, fill: char, count: usize)
    ensures
        final(s)@ == old(s)@ + Seq::new(count as nat, |i: int| fill),
{
    let mut i: usize = 0;
    while i < count
        invariant
            i <= count,
            s@ == old(s)@ + Seq::new(i as nat, |j: int| fill),
        decreases count - i,
    {
        push_char(s, fill);
        proof {
            assert(s@ =~= old(s)@ + Seq::new((i + 1) as nat, |j: int| fill));
        }
        i += 1;
    }
}

/// Appends `digits` with `fill` in front of them until they take at least
/// `width` characters.
pub fn push_padded(s: &mut String, digits: &Vec<char>, width: usize, fill: char)
    ensures
        final(s)@ == old(s)@ + pad_left(digits@, width as nat, fill),
{
    if digits.len() < width {
        push_fill(s, fill, width - digits.len());
    }
    push_chars(s, digits);
    proof {
        assert(s@ =~= old(s)@ + pad_left(digits@, width as nat, fill));
    }
}

/// The code of a character.
pub fn code_of(c: char) -> (code: u32)
    ensures
        code == c as int,
        code <= 0x10FFFF,
{
    c as u32
}

/// The characters of a text.
pub fn chars_of(s: &str) -> (out: Vec<char>)
    ensures
        out@ == s@,
{
    let n = s.unicode_len();
    let mut out: Vec<char> = Vec::new();
    let mut i: usize = 0;
    while i < n
        invariant
            n == s@.len(),
            i <= n,
            out@ == s@.take(i as int),
        decreases n - i,
    {
        out.push(s.get_char(i));
        proof {
            assert(out@ =~= s@.take(i + 1));
        }
        i += 1;
    }
    proof {
        assert(s@.take(n as int) =~= s@);
    }
    out
}

/// The text that holds the given characters.
pub fn string_of(chars: &Vec<char>) -> (s: String)
    ensures
        s@ == chars@,
{
    let mut s = String::new();
    push_chars(&mut s, chars);
    proof {
        assert(Seq::<char>::empty() + chars@ =~= chars@);
    }
    s
}

/// True for the characters that count as white space.
pub open spec fn is_space(c: char) -> bool {
    let u = c as int;
    ||| 0x09 <= u <= 0x0D
    ||| u == 0x20
    ||| u == 0x85
    ||| u == 0xA0
    ||| u == 0x1680
    ||| 0x2000 <= u <= 0x200A
    ||| u == 0x2028
    ||| u == 0x2029
    ||| u == 0x202F
    ||| u == 0x205F
    ||| u == 0x3000
}

/// True for the characters that count as white space.
pub fn space(c: char) -> (r: bool)
    ensures
        r == is_space(c),
{
    let u = code_of(c);
    (0x09 <= u && u <= 0x0D) || u == 0x20 || u == 0x85 || u == 0xA0 || u == 0x1680 || (0x2000 <= u && u <= 0x200A) || u == 0x2028
        || u == 0x2029 || u == 0x202F || u == 0x205F || u == 0x3000
}

/// How many characters at the start of `s` are white space.
pub open spec fn leading_spaces(s: Seq<char>) -> nat
    decreases s.len(),
{
    if s.len() > 0 && is_space(s[0]) {
        1 + leading_spaces(s.drop_first())
    } else {
        0
    }
}

/// How many characters at the end of `s` are white space.
pub open spec fn trailing_spaces(s: Seq<char>) -> nat
    decreases s.len(),
{
    if s.len() > 0 && is_space(s.last()) {
        1 + trailing_spaces(s.drop_last())
    } else {
        0
    }
}

/// `s` without the white space at its start and at its end.
pub open spec fn trimmed(s: Seq<char>) -> Seq<char> {
    let a = leading_spaces(s);
    if a == s.len() {
        Seq::empty()
    } else {
        s.subrange(a as int, s.len() - trailing_spaces(s))
    }
}

/// Where the first `k` characters are white space and the next is not, `k`
/// is the leading white space.
pub proof fn lemma_leading_is(s: Seq<char>, k: nat)
    requires
        k <= s.len(),
        forall|i: int| 0 <= i < k ==> is_space(#[trigger] s[i]),
        k < s.len() ==> !is_space(s[k as int]),
    ensures
        leading_spaces(s) == k,
    decreases k,
{
    if k > 0 {
        let t = s.drop_first();
        assert forall|i: int| 0 <= i < k - 1 implies is_space(#[trigger] t[i]) by {
            assert(t[i] == s[i + 1]);
        }
        lemma_leading_is(t, (k - 1) as nat);
    }
}

/// Where the last `k` characters are white space and the one before is not,
/// `k` is the trailing white space.
pub proof fn lemma_trailing_is(s: Seq<char>, k: nat)
    requires
        k <= s.len(),
        forall|i: int| s.len() - k <= i < s.len() ==> is_space(#[trigger] s[i]),
        k < s.len() ==> !is_space(s[s.len() - k - 1]),
    ensures
        trailing_spaces(s) == k,
    decreases k,
{
    if k > 0 {
        let t = s.drop_last();
        assert forall|i: int| t.len() - (k - 1) <= i < t.len() implies is_space(#[trigger] t[i]) by {
            assert(t[i] == s[i]);
        }
        lemma_trailing_is(t, (k - 1) as nat);
    }
}

/// The characters of `chars` from `from` up to `to`.
pub fn slice_chars(chars: &Vec<char>, from: usize, to: usize) -> (out: Vec<char>)
    requires
        from <= to <= chars@.len(),
    ensures
        out@ == chars@.subrange(from as int, to as int),
{
    let mut out: Vec<char> = Vec::new();
    let mut i: usize = from;
    while i < to
        invariant
            from <= i <= to <= chars@.len(),
            out@ == chars@.subrange(from as int, i as int),
        decreases to - i,
    {
        out.push(chars[i]);
        proof {
            assert(out@ =~= chars@.subrange(from as int, i + 1));
        }
        i += 1;
    }
    out
}

/// `chars` without the white space at its start and at its end.
pub fn trim(chars: &Vec<char>) -> (out: Vec<char>)
    ensures
        out@ == trimmed(chars@),
{
    let n = chars.len();
    let mut a: usize = 0;
    while a < n && space(chars[a])
        invariant
            a <= n,
            n == chars@.len(),
            forall|i: int| 0 <= i < a ==> is_space(#[trigger] chars@[i]),
        decreases n - a,
    {
        a += 1;
    }
    proof {
        lemma_leading_is(chars@, a as nat);
    }
    if a == n {
        return Vec::new();
    }
    let mut b: usize = n;
    while b > 0 && space(chars[b - 1])
        invariant
            b <= n,
            n == chars@.len(),
            forall|i: int| b <= i < n ==> is_space(#[trigger] chars@[i]),
        decreases b,
    {
        b -= 1;
    }
    proof {
        lemma_trailing_is(chars@, (n - b) as nat);
        if b <= a {
            assert(is_space(chars@[a as int]));
        }
    }
    slice_chars(chars, a, b)
}

/// The value of a text of decimal digits; `None` where the text is empty or
/// holds another character.
pub open spec fn digits_value(s: Seq<char>) -> Option<nat>
    decreases s.len(),
{
    if s.len() == 0 {
        None
    } else if !('0' <= s.last() <= '9') {
        None
    } else if s.len() == 1 {
        Some((s.last() as int - '0' as int) as nat)
    } else {
        match digits_value(s.drop_last()) {
            Some(v) => Some((10 * v + (s.last() as int - '0' as int)) as nat),
            None => None,
        }
    }
}

/// The number that a text states: decimal digits, after a plus sign or
/// without one, with a value of at most `max`.
pub open spec fn parsed_number(s: Seq<char>, max: nat) -> Option<nat> {
    let body = if s.len() > 0 && s[0] == '+' { s.drop_first() } else { s };
    match digits_value(body) {
        Some(v) => if v <= max {
            Some(v)
        } else {
            None
        },
        None => None,
    }
}

/// Once the digits read so far are worth more than `max`, so are all of them.
pub proof fn lemma_digits_grow(s: Seq<char>, k: int)
    requires
        1 <= k <= s.len(),
        digits_value(s) is Some,
    ensures
        digits_value(s.take(k)) is Some,
        digits_value(s.take(k))->0 <= digits_value(s)->0,
    decreases s.len() - k,
{
    if k < s.len() {
        assert(s.drop_last().take(k) =~= s.take(k));
        lemma_digits_grow(s.drop_last(), k);
    } else {
        assert(s.take(k) =~= s);
    }
}

/// Where a prefix of a text is no number, the text is none.
pub proof fn lemma_digits_fail(s: Seq<char>, k: int)
    requires
        1 <= k <= s.len(),
        digits_value(s.take(k)) is None,
    ensures
        digits_value(s) is None,
    decreases s.len() - k,
{
    if k < s.len() {
        assert(s.take(k + 1).drop_last() =~= s.take(k));
        lemma_digits_fail(s, k + 1);
    } else {
        assert(s.take(k) =~= s);
    }
}

/// Reads the number that `chars` states, where it is at most `max`.
pub fn parse_number(chars: &Vec<char>, max: u64) -> (r: Option<u64>)
    ensures
        match parsed_number(chars@, max as nat) {
            Some(v) => r == Some(v as u64),
            None => r is None,
        },
{
    let n = chars.len();
    let start: usize = if n > 0 && chars[0] == '+' { 1 } else { 0 };
    let ghost body = chars@.subrange(start as int, n as int);
    proof {
        if start == 1 {
            assert(body =~= chars@.drop_first());
        } else {
            assert(body =~= chars@);
        }
    }
    if start == n {
        return None;
    }
    let mut v: u64 = 0;
    let mut i: usize = start;
    while i < n
        invariant
            start <= i <= n,
            start < n,
            n == chars@.len(),
            body == chars@.subrange(start as int, n as int),
            body == (if chars@.len() > 0 && chars@[0] == '+' { chars@.drop_first() } else { chars@ }),
            i > start ==> digits_value(body.take(i - start)) == Some(v as nat),
            i == start ==> v == 0,
            v <= max,
        decreases n - i,
    {
        let c = chars[i];
        proof {
            assert(body.take(i - start + 1).drop_last() =~= body.take(i - start));
            assert(body.take(i - start + 1).last() == c);
        }
        let ghost upto = body.take(i - start + 1);
        if !('0' <= c && c <= '9') {
            proof {
                assert(digits_value(upto) is None);
                lemma_digits_fail(body, i - start + 1);
            }
            return None;
        }
        let d: u64 = (code_of(c) - code_of('0')) as u64;
        proof {
            assert(d == c as int - '0' as int);
            assert(digits_value(upto) == Some((10 * v + d) as nat)) by {
                if i > start {
                    assert(upto.len() > 1);
                }
            }
        }
        if d > max || v > (max - d) / 10 {
            proof {
                assert(10 * v + d > max);
                if digits_value(body) is Some {
                    lemma_digits_grow(body, i - start + 1);
                }
            }
            return None;
        }
        v = 10 * v + d;
        i += 1;
    }
    proof {
        assert(body.take(n - start) =~= body);
    }
    Some(v)
}

/// The words of a text between white space; `cur` holds the characters of
/// the word that is being read.
pub open spec fn words_from(s: Seq<char>, cur: Seq<char>) -> Seq<Seq<char>>
    decreases s.len(),
{
    if s.len() == 0 {
        if cur.len() > 0 {
            seq![cur]
        } else {
            Seq::empty()
        }
    } else if is_space(s[0]) {
        if cur.len() > 0 {
            seq![cur] + words_from(s.drop_first(), Seq::empty())
        } else {
            words_from(s.drop_first(), Seq::empty())
        }
    } else {
        words_from(s.drop_first(), cur.push(s[0]))
    }
}

/// The words of a text between white space.
pub open spec fn words(s: Seq<char>) -> Seq<Seq<char>> {
    words_from(s, Seq::empty())
}

/// What a list of lists of characters holds.
pub open spec fn rows(v: Seq<Vec<char>>) -> Seq<Seq<char>> {
    Seq::new(v.len(), |i: int| v[i]@)
}

/// Splits a text into its words between white space.
pub fn split_words(chars: &Vec<char>) -> (out: Vec<Vec<char>>)
    ensures
        rows(out@) == words(chars@),
{
    let n = chars.len();
    let mut out: Vec<Vec<char>> = Vec::new();
    let mut cur: Vec<char> = Vec::new();
    let mut i: usize = 0;
    proof {
        assert(chars@.subrange(0, n as int) =~= chars@);
        assert(rows(out@) =~= Seq::<Seq<char>>::empty());
    }
    while i < n
        invariant
            n == chars@.len(),
            i <= n,
            words(chars@) == rows(out@) + words_from(chars@.subrange(i as int, n as int), cur@),
        decreases n - i,
    {
        let c = chars[i];
        let ghost rest = chars@.subrange(i as int, n as int);
        let ghost done = rows(out@);
        let ghost cur0 = cur@;
        let ghost tail = chars@.subrange(i + 1, n as int);
        proof {
            assert(rest[0] == c);
            assert(rest.drop_first() =~= tail);
        }
        if space(c) {
            if cur.len() > 0 {
                out.push(cur);
                cur = Vec::new();
                proof {
                    assert(rows(out@) =~= done + seq![cur0]);
                    assert(done + (seq![cur0] + words_from(tail, Seq::empty())) =~= (done + seq![cur0]) + words_from(
                        tail,
                        Seq::empty(),
                    ));
                }
            } else {
                proof {
                    assert(cur0 =~= Seq::<char>::empty());
                }
            }
        } else {
            cur.push(c);
        }
        i += 1;
    }
    proof {
        assert(chars@.subrange(n as int, n as int) =~= Seq::<char>::empty());
    }
    let ghost done = rows(out@);
    let ghost last = cur@;
    if cur.len() > 0 {
        out.push(cur);
        proof {
            assert(rows(out@) =~= done + seq![last]);
        }
    } else {
        proof {
            assert(done + Seq::<Seq<char>>::empty() =~= done);
        }
    }
    out
}

/// Whether `chars` holds the characters of `lit`.
pub fn same_text(chars: &Vec<char>, lit: &str) -> (r: bool)
    ensures
        r == (chars@ == lit@),
{
    let other = chars_of(lit);
    if chars.len() != other.len() {
        return false;
    }
    let mut i: usize = 0;
    while i < chars.len()
        invariant
            i <= chars@.len(),
            chars@.len() == other@.len(),
            other@ == lit@,
            chars@.take(i as int) == other@.take(i as int),
        decreases chars@.len() - i,
    {
        if chars[i] != other[i] {
            return false;
        }
        proof {
            assert(chars@.take(i + 1) =~= chars@.take(i as int).push(chars@[i as int]));
            assert(other@.take(i + 1) =~= other@.take(i as int).push(other@[i as int]));
        }
        i += 1;
    }
    proof {
        assert(chars@.take(i as int) =~= chars@);
        assert(other@.take(i as int) =~= other@);
    }
    true
}

/// True when `s` begins with `prefix`.
pub open spec fn begins_with(s: Seq<char>, prefix: Seq<char>) -> bool {
    prefix.len() <= s.len() && s.take(prefix.len() as int) == prefix
}

/// Whether `chars` begins with the characters of `lit`.
pub fn starts_with(chars: &Vec<char>, lit: &str) -> (r: bool)
    ensures
        r == begins_with(chars@, lit@),
{
    let other = chars_of(lit);
    if chars.len() < other.len() {
        return false;
    }
    let head = slice_chars(chars, 0, other.len());
    proof {
        assert(chars@.subrange(0, other@.len() as int) =~= chars@.take(other@.len() as int));
    }
    same_text(&head, lit)
}

/// How many characters at the start of `s` are `a` or `b`.
pub open spec fn leading_of(s: Seq<char>, a: char, b: char) -> nat
    decreases s.len(),
{
    if s.len() > 0 && (s[0] == a || s[0] == b) {
        1 + leading_of(s.drop_first(), a, b)
    } else {
        0
    }
}

/// How many characters at the end of `s` are `a` or `b`.
pub open spec fn trailing_of(s: Seq<char>, a: char, b: char) -> nat
    decreases s.len(),
{
    if s.len() > 0 && (s.last() == a || s.last() == b) {
        1 + trailing_of(s.drop_last(), a, b)
    } else {
        0
    }
}

/// `s` without the characters `a` and `b` at its start and at its end.
pub open spec fn stripped(s: Seq<char>, a: char, b: char) -> Seq<char> {
    let n = leading_of(s, a, b);
    if n == s.len() {
        Seq::empty()
    } else {
        s.subrange(n as int, s.len() - trailing_of(s, a, b))
    }
}

/// Where the first `k` characters are `a` or `b` and the next is not, `k`
/// is what `leading_of` counts.
pub proof fn lemma_leading_of_is(s: Seq<char>, a: char, b: char, k: nat)
    requires
        k <= s.len(),
        forall|i: int| 0 <= i < k ==> (#[trigger] s[i] == a || s[i] == b),
        k < s.len() ==> !(s[k as int] == a || s[k as int] == b),
    ensures
        leading_of(s, a, b) == k,
    decreases k,
{
    if k > 0 {
        let t = s.drop_first();
        assert forall|i: int| 0 <= i < k - 1 implies (#[trigger] t[i] == a || t[i] == b) by {
            assert(t[i] == s[i + 1]);
        }
        assert(s[0] == a || s[0] == b);
        lemma_leading_of_is(t, a, b, (k - 1) as nat);
    }
}

/// Where the last `k` characters are `a` or `b` and the one before is not,
/// `k` is what `trailing_of` counts.
pub proof fn lemma_trailing_of_is(s: Seq<char>, a: char, b: char, k: nat)
    requires
        k <= s.len(),
        forall|i: int| s.len() - k <= i < s.len() ==> (#[trigger] s[i] == a || s[i] == b),
        k < s.len() ==> !(s[s.len() - k - 1] == a || s[s.len() - k - 1] == b),
    ensures
        trailing_of(s, a, b) == k,
    decreases k,
{
    if k > 0 {
        let t = s.drop_last();
        assert forall|i: int| t.len() - (k - 1) <= i < t.len() implies (#[trigger] t[i] == a || t[i] == b) by {
            assert(t[i] == s[i]);
        }
        assert(s[s.len() - 1] == a || s[s.len() - 1] == b);
        lemma_trailing_of_is(t, a, b, (k - 1) as nat);
    }
}

/// `chars` without the characters `a` and `b` at its start and at its end.
pub fn strip(chars: &Vec<char>, a: char, b: char) -> (out: Vec<char>)
    ensures
        out@ == stripped(chars@, a, b),
{
    let n = chars.len();
    let mut lo: usize = 0;
    while lo < n && (chars[lo] == a || chars[lo] == b)
        invariant
            lo <= n,
            n == chars@.len(),
            forall|i: int| 0 <= i < lo ==> (#[trigger] chars@[i] == a || chars@[i] == b),
        decreases n - lo,
    {
        lo += 1;
    }
    proof {
        lemma_leading_of_is(chars@, a, b, lo as nat);
    }
    if lo == n {
        return Vec::new();
    }
    let mut hi: usize = n;
    while hi > 0 && (chars[hi - 1] == a || chars[hi - 1] == b)
        invariant
            hi <= n,
            n == chars@.len(),
            forall|i: int| hi <= i < n ==> (#[trigger] chars@[i] == a || chars@[i] == b),
        decreases hi,
    {
        hi -= 1;
    }
    proof {
        lemma_trailing_of_is(chars@, a, b, (n - hi) as nat);
        if hi <= lo {
            assert(chars@[lo as int] == a || chars@[lo as int] == b);
        }
    }
    slice_chars(chars, lo, hi)
}

/// The lines of a text: its parts between line feeds; `cur` holds the
/// characters of the line that is being read.
pub open spec fn lines_from(s: Seq<char>, cur: Seq<char>) -> Seq<Seq<char>>
    decreases s.len(),
{
    if s.len() == 0 {
        seq![cur]
    } else if s[0] == '\n' {
        seq![cur] + lines_from(s.drop_first(), Seq::empty())
    } else {
        lines_from(s.drop_first(), cur.push(s[0]))
    }
}

/// The lines of a text: its parts between line feeds, empty ones too.
pub open spec fn lines(s: Seq<char>) -> Seq<Seq<char>> {
    lines_from(s, Seq::empty())
}

/// Splits a text into its lines.
pub fn split_lines(chars: &Vec<char>) -> (out: Vec<Vec<char>>)
    ensures
        rows(out@) == lines(chars@),
{
    let n = chars.len();
    let mut out: Vec<Vec<char>> = Vec::new();
    let mut cur: Vec<char> = Vec::new();
    let mut i: usize = 0;
    proof {
        assert(chars@.subrange(0, n as int) =~= chars@);
        assert(rows(out@) =~= Seq::<Seq<char>>::empty());
    }
    while i < n
        invariant
            n == chars@.len(),
            i <= n,
            lines(chars@) == rows(out@) + lines_from(chars@.subrange(i as int, n as int), cur@),
        decreases n - i,
    {
        let c = chars[i];
        let ghost rest = chars@.subrange(i as int, n as int);
        let ghost done = rows(out@);
        let ghost cur0 = cur@;
        let ghost tail = chars@.subrange(i + 1, n as int);
        proof {
            assert(rest[0] == c);
            assert(rest.drop_first() =~= tail);
        }
        if c == '\n' {
            out.push(cur);
            cur = Vec::new();
            proof {
                assert(rows(out@) =~= done + seq![cur0]);
                assert(done + (seq![cur0] + lines_from(tail, Seq::empty())) =~= (done + seq![cur0]) + lines_from(tail, Seq::empty()));
            }
        } else {
            cur.push(c);
        }
        i += 1;
    }
    proof {
        assert(chars@.subrange(n as int, n as int) =~= Seq::<char>::empty());
    }
    let ghost done = rows(out@);
    let ghost last = cur@;
    out.push(cur);
    proof {
        assert(rows(out@) =~= done + seq![last]);
    }
    out
}

/// Index of the first `c` in `s`, or the length of `s` where there is none.
pub open spec fn first_index(s: Seq<char>, c: char) -> nat
    decreases s.len(),
{
    if s.len() == 0 || s[0] == c {
        0
    } else {
        1 + first_index(s.drop_first(), c)
    }
}

/// Where the first `k` characters are not `c` and the next is, or the text
/// ends, `k` is what `first_index` finds.
pub proof fn lemma_first_index_is(s: Seq<char>, c: char, k: nat)
    requires
        k <= s.len(),
        forall|i: int| 0 <= i < k ==> #[trigger] s[i] != c,
        k < s.len() ==> s[k as int] == c,
    ensures
        first_index(s, c) == k,
    decreases k,
{
    if k > 0 {
        let t = s.drop_first();
        assert forall|i: int| 0 <= i < k - 1 implies #[trigger] t[i] != c by {
            assert(t[i] == s[i + 1]);
        }
        assert(s[0] != c);
        lemma_first_index_is(t, c, (k - 1) as nat);
    }
}

/// Index of the first `c` in `chars`, or its length where there is none.
pub fn find_char(chars: &Vec<char>, c: char) -> (k: usize)
    ensures
        k == first_index(chars@, c),
        k <= chars@.len(),
{
    let mut k: usize = 0;
    while k < chars.len() && chars[k] != c
        invariant
            k <= chars@.len(),
            forall|i: int| 0 <= i < k ==> #[trigger] chars@[i] != c,
        decreases chars@.len() - k,
    {
        k += 1;
    }
    proof {
        lemma_first_index_is(chars@, c, k as nat);
    }
    k
}

/// A letter of the basic alphabet in lower case; any other character as it is.
pub open spec fn lower(c: char) -> char {
    if 'A' <= c <= 'Z' {
        ((c as int) + 32) as char
    } else {
        c
    }
}

/// `s` with the letters of the basic alphabet in lower case.
pub open spec fn lowered(s: Seq<char>) -> Seq<char> {
    Seq::new(s.len(), |i: int| lower(s[i]))
}

/// A letter of the basic alphabet in lower case; any other character as it is.
pub fn to_lower(c: char) -> (r: char)
    ensures
        r == lower(c),
{
    if c == 'A' {
        'a'
    } else if c == 'B' {
        'b'
    } else if c == 'C' {
        'c'
    } else if c == 'D' {
        'd'
    } else if c == 'E' {
        'e'
    } else if c == 'F' {
        'f'
    } else if c == 'G' {
        'g'
    } else if c == 'H' {
        'h'
    } else if c == 'I' {
        'i'
    } else if c == 'J' {
        'j'
    } else if c == 'K' {
        'k'
    } else if c == 'L' {
        'l'
    } else if c == 'M' {
        'm'
    } else if c == 'N' {
        'n'
    } else if c == 'O' {
        'o'
    } else if c == 'P' {
        'p'
    } else if c == 'Q' {
        'q'
    } else if c == 'R' {
        'r'
    } else if c == 'S' {
        's'
    } else if c == 'T' {
        't'
    } else if c == 'U' {
        'u'
    } else if c == 'V' {
        'v'
    } else if c == 'W' {
        'w'
    } else if c == 'X' {
        'x'
    } else if c == 'Y' {
        'y'
    } else if c == 'Z' {
        'z'
    } else {
        c
    }
}

/// `chars` with the letters of the basic alphabet in lower case.
pub fn to_lowered(chars: &Vec<char>) -> (out: Vec<char>)
    ensures
        out@ == lowered(chars@),
{
    let mut out: Vec<char> = Vec::new();
    let mut i: usize = 0;
    while i < chars.len()
        invariant
            i <= chars@.len(),
            out@ == lowered(chars@).take(i as int),
        decreases chars@.len() - i,
    {
        out.push(to_lower(chars[i]));
        proof {
            assert(out@ =~= lowered(chars@).take(i + 1));
        }
        i += 1;
    }
    proof {
        assert(lowered(chars@).take(i as int) =~= lowered(chars@));
    }
    out
}

/// A text has at least one line.
pub proof fn lemma_lines_some(s: Seq<char>, cur: Seq<char>)
    ensures
        lines_from(s, cur).len() >= 1,
    decreases s.len(),
{
    if s.len() > 0 {
        lemma_lines_some(s.drop_first(), Seq::empty());
        lemma_lines_some(s.drop_first(), cur.push(s[0]));
    }
}

} // verus!
