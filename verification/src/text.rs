//! Text helpers over sequences of characters.

use vstd::prelude::*;
use vstd::string::*;

verus! {

broadcast use vstd::string::group_string_axioms;

/// `String::push`: the character is appended to the end of the string.
pub assume_specification[ String::push ](s: &mut String, c: char)
    ensures
        final(s)@ == old(s)@.push(c),
;

/// The characters with the Unicode `White_Space` property.
pub open spec fn is_white(c: char) -> bool {
    let u = c as u32;
    ||| 0x09 <= u <= 0x0d
    ||| u == 0x20
    ||| u == 0x85
    ||| u == 0xa0
    ||| u == 0x1680
    ||| 0x2000 <= u <= 0x200a
    ||| u == 0x2028
    ||| u == 0x2029
    ||| u == 0x202f
    ||| u == 0x205f
    ||| u == 0x3000
}

/// `s` without its leading whitespace.
pub open spec fn trim_start(s: Seq<char>) -> Seq<char>
    decreases s.len(),
{
    if s.len() > 0 && is_white(s[0]) {
        trim_start(s.subrange(1, s.len() as int))
    } else {
        s
    }
}

/// `s` without its trailing whitespace.
pub open spec fn trim_end(s: Seq<char>) -> Seq<char>
    decreases s.len(),
{
    if s.len() > 0 && is_white(s.last()) {
        trim_end(s.drop_last())
    } else {
        s
    }
}

/// `s` without its leading and trailing whitespace.
pub open spec fn trimmed(s: Seq<char>) -> Seq<char> {
    trim_end(trim_start(s))
}

/// Whether `s` holds nothing but whitespace.
pub open spec fn blank(s: Seq<char>) -> bool {
    trimmed(s).len() == 0
}

/// What an optional text says.
pub open spec fn text_view(o: Option<String>) -> Option<Seq<char>> {
    match o {
        Some(s) => Some(s@),
        None => None,
    }
}

/// Whether `c` has the `White_Space` property.
pub fn char_is_white(c: char) -> (r: bool)
    ensures
        r == is_white(c),
{
    let u: u32 = c as u32;
    (0x09 <= u && u <= 0x0d) || u == 0x20 || u == 0x85 || u == 0xa0 || u == 0x1680 || (0x2000 <= u
        && u <= 0x200a) || u == 0x2028 || u == 0x2029 || u == 0x202f || u == 0x205f || u == 0x3000
}

/// The characters of `s`, in order.
pub fn chars_of(s: &str) -> (r: Vec<char>)
    ensures
        r@ == s@,
{
    let mut v: Vec<char> = Vec::new();
    for c in it: s.chars()
        invariant
            v@.len() == it.index(),
            it.seq() == s@,
            forall|i: int| 0 <= i < v@.len() ==> v@[i] == it.seq()[i],
    {
        v.push(c);
    }
    assert(v@ =~= s@);
    v
}

/// The string made of the given characters.
pub fn text_of(chars: &[char]) -> (r: String)
    ensures
        r@ == chars@,
{
    let mut s: String = String::new();
    let n: usize = chars.len();
    for i in 0..n
        invariant
            n == chars@.len(),
            s@ == chars@.take(i as int),
    {
        s.push(chars[i]);
        assert(chars@.take(i + 1) =~= chars@.take(i as int).push(chars@[i as int]));
    }
    assert(chars@.take(n as int) =~= chars@);
    s
}

/// Whether two strings hold the same characters.
pub fn same_text(a: &str, b: &str) -> (r: bool)
    ensures
        r == (a@ == b@),
{
    let x: String = a.to_owned();
    let y: String = b.to_owned();
    x == y
}

/// `s` without its leading and trailing whitespace.
pub fn trim_text(s: &str) -> (r: String)
    ensures
        r@ == trimmed(s@),
{
    let chars: Vec<char> = chars_of(s);
    let n: usize = chars.len();
    let mut a: usize = 0;
    assert(chars@.subrange(0, n as int) =~= s@);
    while a < n && char_is_white(chars[a])
        invariant
            n == chars@.len(),
            a <= n,
            trim_start(s@) == trim_start(chars@.subrange(a as int, n as int)),
        ensures
            a <= n,
            trim_start(s@) == chars@.subrange(a as int, n as int),
        decreases n - a,
    {
        proof {
            let rest = chars@.subrange(a as int, n as int);
            assert(rest.subrange(1, rest.len() as int) =~= chars@.subrange(a + 1, n as int));
        }
        a = a + 1;
    }
    let mut b: usize = n;
    while a < b && char_is_white(chars[b - 1])
        invariant
            n == chars@.len(),
            a <= b <= n,
            trimmed(s@) == trim_end(chars@.subrange(a as int, b as int)),
        ensures
            a <= b <= n,
            trimmed(s@) == chars@.subrange(a as int, b as int),
        decreases b - a,
    {
        proof {
            let rest = chars@.subrange(a as int, b as int);
            assert(rest.drop_last() =~= chars@.subrange(a as int, b - 1));
        }
        b = b - 1;
    }
    text_of(vstd::slice::slice_subrange(chars.as_slice(), a, b))
}

/// Whether `s` begins with `prefix`.
pub fn has_prefix(s: &str, prefix: &str) -> (r: bool)
    ensures
        r == prefix@.is_prefix_of(s@),
{
    let a: Vec<char> = chars_of(s);
    let b: Vec<char> = chars_of(prefix);
    if b.len() > a.len() {
        return false;
    }
    let n: usize = b.len();
    for i in 0..n
        invariant
            n == b@.len(),
            n <= a@.len(),
            a@ == s@,
            b@ == prefix@,
            b@.take(i as int) =~= a@.take(i as int),
    {
        if a[i] != b[i] {
            assert(s@.subrange(0, prefix@.len() as int)[i as int] == a@[i as int]);
            return false;
        }
        assert(b@.take(i + 1) =~= b@.take(i as int).push(b@[i as int]));
        assert(a@.take(i + 1) =~= a@.take(i as int).push(a@[i as int]));
    }
    assert(b@.take(n as int) =~= b@);
    assert(a@.take(n as int) =~= s@.subrange(0, prefix@.len() as int));
    true
}

/// Whether `s` ends with `suffix`.
pub fn has_suffix(s: &str, suffix: &str) -> (r: bool)
    ensures
        r == suffix@.is_suffix_of(s@),
{
    let a: Vec<char> = chars_of(s);
    let b: Vec<char> = chars_of(suffix);
    if b.len() > a.len() {
        return false;
    }
    let n: usize = b.len();
    let off: usize = a.len() - n;
    for i in 0..n
        invariant
            n == b@.len(),
            off + n == a.len(),
            a@ == s@,
            b@ == suffix@,
            forall|j: int| 0 <= j < i ==> #[trigger] b@[j] == a@[off + j],
    {
        if a[off + i] != b[i] {
            assert(s@.subrange((s@.len() - suffix@.len()) as int, s@.len() as int)[i as int] == a@[off + i]);
            return false;
        }
    }
    assert(suffix@ =~= s@.subrange((s@.len() - suffix@.len()) as int, s@.len() as int));
    true
}

/// The part of `s` after its first `n` characters.
pub fn text_after(s: &str, n: usize) -> (r: String)
    requires
        n <= s@.len(),
    ensures
        r@ == s@.skip(n as int),
{
    let chars: Vec<char> = chars_of(s);
    text_of(vstd::slice::slice_subrange(chars.as_slice(), n, chars.len()))
}

/// The character for a decimal digit.
pub open spec fn digit_char(d: nat) -> char {
    ('0' as u32 + d) as char
}

/// The decimal notation of `n`, without leading zeros.
pub open spec fn decimal(n: nat) -> Seq<char>
    decreases n,
{
    if n < 10 {
        seq![digit_char(n)]
    } else {
        decimal(n / 10).push(digit_char(n % 10))
    }
}

/// `c` repeated `n` times.
pub open spec fn repeated(c: char, n: int) -> Seq<char> {
    Seq::new(if n < 0 { 0nat } else { n as nat }, |i: int| c)
}

/// `s` with `c` put in front of it up to a length of `width`.
pub open spec fn padded_left(s: Seq<char>, c: char, width: int) -> Seq<char> {
    repeated(c, width - s.len()) + s
}

/// `s` with spaces behind it up to a length of `width`.
pub open spec fn padded_right(s: Seq<char>, width: int) -> Seq<char> {
    s + repeated(' ', width - s.len())
}

/// The character for a decimal digit.
fn digit(d: u64) -> (c: char)
    requires
        d < 10,
    ensures
        c == digit_char(d as nat),
{
    let b: u8 = 48u8 + (d as u8);
    b as char
}

/// The decimal notation of `n`.
pub fn decimal_text(n: u64) -> (r: String)
    ensures
        r@ == decimal(n as nat),
    decreases n,
{
    if n < 10 {
        let mut s: String = String::new();
        s.push(digit(n));
        assert(s@ =~= decimal(n as nat));
        s
    } else {
        let mut s: String = decimal_text(n / 10);
        s.push(digit(n % 10));
        s
    }
}

/// `n` copies of `c`.
pub fn repeat_char(c: char, n: usize) -> (r: String)
    ensures
        r@ == repeated(c, n as int),
{
    let mut s: String = String::new();
    for i in 0..n
        invariant
            s@ == repeated(c, i as int),
    {
        s.push(c);
        assert(s@ =~= repeated(c, i + 1));
    }
    s
}

/// `s` with `c` put in front of it up to a length of `width` characters.
pub fn pad_left(s: &str, c: char, width: usize) -> (r: String)
    ensures
        r@ == padded_left(s@, c, width as int),
{
    let n: usize = s.unicode_len();
    let mut out: String = repeat_char(c, if n < width { width - n } else { 0 });
    out.append(s);
    assert(out@ =~= padded_left(s@, c, width as int));
    out
}

/// `s` with spaces behind it up to a length of `width` characters.
pub fn pad_right(s: &str, width: usize) -> (r: String)
    ensures
        r@ == padded_right(s@, width as int),
{
    let n: usize = s.unicode_len();
    let mut out: String = s.to_owned();
    out.append(repeat_char(' ', if n < width { width - n } else { 0 }).as_str());
    assert(out@ =~= padded_right(s@, width as int));
    out
}

/// The parts in order, with `sep` between each and the next.
pub open spec fn joined(parts: Seq<Seq<char>>, sep: Seq<char>) -> Seq<char>
    decreases parts.len(),
{
    if parts.len() == 0 {
        Seq::empty()
    } else if parts.len() == 1 {
        parts[0]
    } else {
        joined(parts.drop_last(), sep) + sep + parts.last()
    }
}

/// Whether `c` is an ASCII decimal digit.
pub open spec fn is_digit(c: char) -> bool {
    '0' <= c <= '9'
}

/// The number that a run of decimal digits denotes.
pub open spec fn digits_value(s: Seq<char>) -> nat
    decreases s.len(),
{
    if s.len() == 0 {
        0
    } else {
        digits_value(s.drop_last()) * 10 + (s.last() as nat - '0' as nat) as nat
    }
}

/// Whether every character of `s` is a decimal digit.
pub open spec fn all_digits(s: Seq<char>) -> bool {
    forall|i: int| 0 <= i < s.len() ==> is_digit(#[trigger] s[i])
}

/// `s` without the plus sign that it may begin with.
pub open spec fn after_plus(s: Seq<char>) -> Seq<char> {
    if s.len() > 0 && s[0] == '+' {
        s.skip(1)
    } else {
        s
    }
}

/// The number that `s` denotes: an optional plus sign, then one digit or more.
pub open spec fn parsed_nat(s: Seq<char>) -> Option<nat> {
    let body = after_plus(s);
    if body.len() > 0 && all_digits(body) {
        Some(digits_value(body))
    } else {
        None
    }
}

/// The number that `s` denotes, where it is at most `max`.
pub open spec fn parsed_up_to(s: Seq<char>, max: nat) -> Option<nat> {
    match parsed_nat(s) {
        Some(n) => if n <= max { Some(n) } else { None },
        None => None,
    }
}

/// Reads a decimal number of at most `max`.
pub fn parse_up_to(s: &str, max: u64) -> (r: Option<u64>)
    ensures
        match r {
            Some(n) => parsed_up_to(s@, max as nat) == Some(n as nat),
            None => parsed_up_to(s@, max as nat) is None,
        },
{
    let chars: Vec<char> = chars_of(s);
    let n: usize = chars.len();
    let from: usize = if n > 0 && chars[0] == '+' { 1 } else { 0 };
    let ghost body = after_plus(s@);
    assert(body =~= chars@.skip(from as int));
    if from == n {
        return None;
    }
    let mut i: usize = from;
    let mut value: u64 = 0;
    let mut over: bool = false;
    while i < n
        invariant
            n == chars@.len(),
            from <= i <= n,
            body == chars@.skip(from as int),
            forall|j: int| 0 <= j < i - from ==> is_digit(#[trigger] body[j]),
            over ==> digits_value(body.take(i - from)) > max,
            !over ==> value == digits_value(body.take(i - from)) && value <= max,
            body == after_plus(s@),
        decreases n - i,
    {
        let c: char = chars[i];
        assert(body[i - from] == c);
        if !('0' <= c && c <= '9') {
            assert(!is_digit(body[i - from]));
            return None;
        }
        let d: u64 = c as u64 - 48;
        assert(body.take(i - from + 1).drop_last() =~= body.take(i - from));
        if !over {
            if value as u128 * 10 + d as u128 > max as u128 {
                over = true;
            } else {
                value = value * 10 + d;
            }
        }
        i = i + 1;
    }
    assert(body.take(n - from) =~= body);
    if over {
        None
    } else {
        Some(value)
    }
}

/// One more part goes behind the separator, or stands alone where it is the first.
pub proof fn lemma_joined_push(parts: Seq<Seq<char>>, sep: Seq<char>, part: Seq<char>)
    ensures
        joined(parts.push(part), sep) == if parts.len() == 0 {
            part
        } else {
            joined(parts, sep) + sep + part
        },
{
    assert(parts.push(part).drop_last() =~= parts);
}

/// Text added behind the last part ends up behind the joined text.
pub proof fn lemma_joined_extend_last(parts: Seq<Seq<char>>, sep: Seq<char>, more: Seq<char>)
    requires
        parts.len() > 0,
    ensures
        joined(parts.drop_last().push(parts.last() + more), sep) == joined(parts, sep) + more,
{
    let init = parts.drop_last();
    lemma_joined_push(init, sep, parts.last() + more);
    lemma_joined_push(init, sep, parts.last());
    assert(init.push(parts.last()) =~= parts);
    assert(joined(init, sep) + sep + (parts.last() + more) =~= joined(init, sep) + sep
        + parts.last() + more);
}

/// Trimmed text neither begins nor ends with whitespace.
pub proof fn lemma_trimmed_ends(s: Seq<char>)
    ensures
        trimmed(s).len() > 0 ==> !is_white(trimmed(s)[0]) && !is_white(trimmed(s).last()),
{
    lemma_trim_start_front(s);
    lemma_trim_end_back(trim_start(s));
}

proof fn lemma_trim_start_front(s: Seq<char>)
    ensures
        trim_start(s).len() > 0 ==> !is_white(trim_start(s)[0]),
    decreases s.len(),
{
    if s.len() > 0 && is_white(s[0]) {
        lemma_trim_start_front(s.subrange(1, s.len() as int));
    }
}

proof fn lemma_trim_end_back(s: Seq<char>)
    ensures
        trim_end(s).len() > 0 ==> !is_white(trim_end(s).last()) && trim_end(s)[0] == s[0],
    decreases s.len(),
{
    if s.len() > 0 && is_white(s.last()) {
        lemma_trim_end_back(s.drop_last());
    }
}

/// A number's decimal notation denotes that number.
pub proof fn decimal_denotes(n: nat)
    ensures
        decimal(n).len() > 0,
        all_digits(decimal(n)),
        digits_value(decimal(n)) == n,
        parsed_nat(decimal(n)) == Some(n),
    decreases n,
{
    if n < 10 {
        assert(decimal(n).drop_last() =~= Seq::<char>::empty());
        assert(digits_value(Seq::<char>::empty()) == 0);
    } else {
        decimal_denotes(n / 10);
        assert(decimal(n).drop_last() =~= decimal(n / 10));
        assert forall|i: int| 0 <= i < decimal(n).len() implies is_digit(
            #[trigger] decimal(n)[i],
        ) by {
            if i < decimal(n / 10).len() {
                assert(is_digit(decimal(n / 10)[i]));
            }
        }
    }
    assert(is_digit(decimal(n)[0]));
}

/// Zeros in front of a run of digits do not change what it denotes.
pub proof fn lemma_leading_zeros(s: Seq<char>, n: int)
    ensures
        digits_value(repeated('0', n) + s) == digits_value(s),
    decreases s.len(), n,
{
    let p = repeated('0', n);
    if s.len() > 0 {
        lemma_leading_zeros(s.drop_last(), n);
        assert((p + s).drop_last() =~= p + s.drop_last());
    } else if n > 0 {
        lemma_leading_zeros(s, n - 1);
        assert((p + s).drop_last() =~= repeated('0', n - 1) + s);
    } else {
        assert(p + s =~= s);
    }
}

/// Whether every character of `s` is whitespace.
pub open spec fn all_white(s: Seq<char>) -> bool {
    forall|i: int| 0 <= i < s.len() ==> is_white(#[trigger] s[i])
}

/// Whether `s` is empty, or neither begins nor ends with whitespace.
pub open spec fn has_firm_ends(s: Seq<char>) -> bool {
    s.len() > 0 ==> !is_white(s[0]) && !is_white(s.last())
}

proof fn lemma_trim_start_white(lead: Seq<char>, rest: Seq<char>)
    requires
        all_white(lead),
        rest.len() > 0 ==> !is_white(rest[0]),
    ensures
        trim_start(lead + rest) == rest,
    decreases lead.len(),
{
    if lead.len() == 0 {
        assert(lead + rest =~= rest);
    } else {
        let tail = lead.skip(1);
        assert(is_white(lead[0]));
        assert forall|i: int| 0 <= i < tail.len() implies is_white(#[trigger] tail[i]) by {
            assert(tail[i] == lead[i + 1]);
        }
        lemma_trim_start_white(tail, rest);
        assert((lead + rest).subrange(1, (lead + rest).len() as int) =~= tail + rest);
    }
}

proof fn lemma_trim_end_white(body: Seq<char>, trail: Seq<char>)
    requires
        all_white(trail),
        body.len() > 0 ==> !is_white(body.last()),
    ensures
        trim_end(body + trail) == body,
    decreases trail.len(),
{
    if trail.len() == 0 {
        assert(body + trail =~= body);
    } else {
        let init = trail.drop_last();
        assert(is_white(trail[trail.len() - 1]));
        assert forall|i: int| 0 <= i < init.len() implies is_white(#[trigger] init[i]) by {
            assert(init[i] == trail[i]);
        }
        lemma_trim_end_white(body, init);
        assert((body + trail).drop_last() =~= body + init);
    }
}

/// Whitespace around a text is trimmed, all of it and nothing else.
pub proof fn lemma_trimmed_body(lead: Seq<char>, body: Seq<char>, trail: Seq<char>)
    requires
        all_white(lead),
        all_white(trail),
        has_firm_ends(body),
    ensures
        trimmed(lead + body + trail) == body,
        trim_end(body + trail) == body,
{
    lemma_trim_end_white(body, trail);
    assert(lead + body + trail =~= lead + (body + trail));
    if body.len() > 0 {
        lemma_trim_start_white(lead, body + trail);
    } else {
        assert forall|i: int| 0 <= i < (lead + trail).len() implies is_white(
            #[trigger] (lead + trail)[i],
        ) by {
            if i < lead.len() {
                assert(is_white(lead[i]));
            } else {
                assert(is_white(trail[i - lead.len()]));
            }
        }
        assert(lead + (body + trail) =~= (lead + trail) + Seq::<char>::empty());
        lemma_trim_start_white(lead + trail, Seq::empty());
    }
}

proof fn lemma_trimmed_is_the_middle(s: Seq<char>) -> (r: (int, int))
    ensures
        0 <= r.0 <= r.1 <= s.len(),
        all_white(s.take(r.0)),
        all_white(s.skip(r.1)),
        trimmed(s) == s.subrange(r.0, r.1),
{
    let a = lemma_trim_start_cut(s);
    let t = trim_start(s);
    let n = lemma_trim_end_cut(t);
    let b = a + n;
    assert(trimmed(s) =~= s.subrange(a, b));
    assert forall|i: int| 0 <= i < s.skip(b).len() implies is_white(#[trigger] s.skip(b)[i]) by {
        assert(s.skip(b)[i] == t.skip(n)[i]);
    }
    (a, b)
}

proof fn lemma_trim_start_cut(s: Seq<char>) -> (a: int)
    ensures
        0 <= a <= s.len(),
        all_white(s.take(a)),
        trim_start(s) == s.skip(a),
    decreases s.len(),
{
    if s.len() > 0 && is_white(s[0]) {
        let rest = s.subrange(1, s.len() as int);
        let a = lemma_trim_start_cut(rest);
        assert(s.skip(a + 1) =~= rest.skip(a));
        assert forall|i: int| 0 <= i < s.take(a + 1).len() implies is_white(
            #[trigger] s.take(a + 1)[i],
        ) by {
            if i > 0 {
                assert(is_white(rest.take(a)[i - 1]));
            }
        }
        a + 1
    } else {
        assert(s.skip(0) =~= s);
        0
    }
}

proof fn lemma_trim_end_cut(s: Seq<char>) -> (n: int)
    ensures
        0 <= n <= s.len(),
        all_white(s.skip(n)),
        trim_end(s) == s.take(n),
    decreases s.len(),
{
    if s.len() > 0 && is_white(s.last()) {
        let rest = s.drop_last();
        let n = lemma_trim_end_cut(rest);
        assert(s.take(n) =~= rest.take(n));
        assert forall|i: int| 0 <= i < s.skip(n).len() implies is_white(#[trigger] s.skip(n)[i]) by {
            if i < rest.skip(n).len() {
                assert(is_white(rest.skip(n)[i]));
            }
        }
        n
    } else {
        assert(s.take(s.len() as int) =~= s);
        s.len() as int
    }
}

/// A text is blank where all of it is whitespace.
pub proof fn lemma_blank_is_white(s: Seq<char>)
    ensures
        blank(s) <==> all_white(s),
{
    if all_white(s) {
        lemma_trimmed_body(s, Seq::empty(), Seq::empty());
        assert(s + Seq::<char>::empty() + Seq::<char>::empty() =~= s);
    }
    if blank(s) {
        let (a, b) = lemma_trimmed_is_the_middle(s);
        assert forall|i: int| 0 <= i < s.len() implies is_white(#[trigger] s[i]) by {
            if i < a {
                assert(is_white(s.take(a)[i]));
            } else {
                assert(is_white(s.skip(b)[i - b]));
            }
        }
    }
}

/// Whitespace is what Unicode says it is: the tab to the carriage return, the
/// space, the next line, and the spaces and separators of the higher planes.
pub proof fn whitespace_is_that_of_unicode(c: char, r: bool)
    requires
        call_ensures(char_is_white, (c,), r),
    ensures
        r == is_white(c),
        r <==> ('\t' <= c <= '\r' || c == ' ' || c == '\u{85}' || c == '\u{a0}' || c == '\u{1680}'
            || '\u{2000}' <= c <= '\u{200a}' || c == '\u{2028}' || c == '\u{2029}' || c
            == '\u{202f}' || c == '\u{205f}' || c == '\u{3000}'),
{
}

/// Trimming a text takes the whitespace around it away, and keeps the rest
/// character by character.
pub proof fn trimming_keeps_the_body(
    s: &str,
    r: String,
    lead: Seq<char>,
    body: Seq<char>,
    trail: Seq<char>,
)
    requires
        call_ensures(trim_text, (s,), r),
        s@ == lead + body + trail,
        all_white(lead),
        all_white(trail),
        has_firm_ends(body),
    ensures
        r@ == body,
{
    lemma_trimmed_body(lead, body, trail);
}

/// A number that was written is read back, where it is not too great; else
/// nothing is read.
pub proof fn written_numbers_are_read_back(
    n: u64,
    written: String,
    s: &str,
    max: u64,
    read: Option<u64>,
)
    requires
        call_ensures(decimal_text, (n,), written),
        s@ == written@,
        call_ensures(parse_up_to, (s, max), read),
    ensures
        read == if n <= max {
            Some(n)
        } else {
            None
        },
{
    decimal_denotes(n as nat);
}

/// Padding keeps the text at its end of the field, and fills the field.
pub proof fn padding_fills_the_field(
    s: &str,
    c: char,
    width: usize,
    left: String,
    right: String,
)
    requires
        call_ensures(pad_left, (s, c, width), left),
        call_ensures(pad_right, (s, width), right),
    ensures
        s@.is_suffix_of(left@),
        s@.is_prefix_of(right@),
        left@.len() == right@.len(),
        left@.len() == if s@.len() < width {
            width as nat
        } else {
            s@.len()
        },
        forall|i: int| 0 <= i < left@.len() - s@.len() ==> #[trigger] left@[i] == c,
        forall|i: int| s@.len() <= i < right@.len() ==> #[trigger] right@[i] == ' ',
{
    assert(s@ =~= left@.subrange((left@.len() - s@.len()) as int, left@.len() as int));
    assert(s@ =~= right@.subrange(0, s@.len() as int));
}

} // verus!
