//! Text building blocks: reading a string as its characters, trimming, comparing, printing
//! numbers and joining parts.

use vstd::prelude::*;

verus! {

/// `str`'s own `==`: true exactly when both strings hold the same characters.
pub assume_specification[ <str as PartialEq<str>>::eq ](a: &str, b: &str) -> (r: bool)
    ensures
        r == (a@ == b@),
;

/// `String::push`: puts one character behind the others.
pub assume_specification[ std::string::String::push ](s: &mut std::string::String, c: char)
    ensures
        final(s)@ == old(s)@.push(c),
;

/// The characters of each string of a list.
pub open spec fn texts(list: Seq<String>) -> Seq<Seq<char>> {
    list.map_values(|s: String| s@)
}

/// The characters of an optional string.
pub open spec fn text_opt(s: Option<String>) -> Option<Seq<char>> {
    match s {
        Some(t) => Some(t@),
        None => None,
    }
}

/// Whether two strings hold the same characters.
pub fn same_text(a: &str, b: &str) -> (r: bool)
    ensures
        r == (a@ == b@),
{
    a.eq(b)
}

/// The characters of a string, one by one.
pub fn chars_of(s: &str) -> (r: Vec<char>)
    ensures
        r@ == s@,
{
    let mut out: Vec<char> = Vec::new();
    for c in it: s.chars()
        invariant
            it.seq() == s@,
            out@ == s@.take(it.index() as int),
    {
        out.push(c);
        assert(s@.take(it.index() + 1) == s@.take(it.index() as int).push(c));
    }
    assert(s@.take(s@.len() as int) == s@);
    out
}

/// The string that a stretch of characters spells.
pub fn text_between(chars: &Vec<char>, from: usize, to: usize) -> (r: String)
    requires
        from <= to <= chars@.len(),
    ensures
        r@ == chars@.subrange(from as int, to as int),
{
    let mut out = String::new();
    for i in from..to
        invariant
            from <= to <= chars@.len(),
            out@ == chars@.subrange(from as int, i as int),
    {
        out.push(chars[i]);
        assert(chars@.subrange(from as int, i + 1) == chars@.subrange(from as int, i as int).push(chars@[i as int]));
    }
    out
}

/// The characters with Unicode's `White_Space` property.
pub open spec fn white_space(c: char) -> bool {
    ||| '\u{9}' <= c <= '\u{D}'
    ||| c == ' '
    ||| c == '\u{85}'
    ||| c == '\u{A0}'
    ||| c == '\u{1680}'
    ||| '\u{2000}' <= c <= '\u{200A}'
    ||| c == '\u{2028}'
    ||| c == '\u{2029}'
    ||| c == '\u{202F}'
    ||| c == '\u{205F}'
    ||| c == '\u{3000}'
}

/// Whether a character is white space.
pub fn is_white_space(c: char) -> (r: bool)
    ensures
        r == white_space(c),
{
    ('\u{9}' <= c && c <= '\u{D}') || c == ' ' || c == '\u{85}' || c == '\u{A0}' || c == '\u{1680}' || (
    '\u{2000}' <= c && c <= '\u{200A}') || c == '\u{2028}' || c == '\u{2029}' || c == '\u{202F}' || c
        == '\u{205F}' || c == '\u{3000}'
}

/// A text that holds nothing but white space.
pub open spec fn blank(s: Seq<char>) -> bool {
    forall|i: int| 0 <= i < s.len() ==> white_space(#[trigger] s[i])
}

/// A text without the white space in front.
pub open spec fn trimmed_front(s: Seq<char>) -> Seq<char>
    decreases s.len(),
{
    if s.len() > 0 && white_space(s.first()) {
        trimmed_front(s.drop_first())
    } else {
        s
    }
}

/// A text without the white space behind.
pub open spec fn trimmed_back(s: Seq<char>) -> Seq<char>
    decreases s.len(),
{
    if s.len() > 0 && white_space(s.last()) {
        trimmed_back(s.drop_last())
    } else {
        s
    }
}

/// A text without the white space at both ends.
pub open spec fn trimmed(s: Seq<char>) -> Seq<char> {
    trimmed_back(trimmed_front(s))
}

/// Nothing is left of a text after trimming exactly when it is all white space.
pub proof fn blank_means_trimmed_to_nothing(s: Seq<char>)
    ensures
        blank(s) <==> trimmed(s).len() == 0,
    decreases s.len(),
{
    if s.len() > 0 && white_space(s.first()) {
        blank_means_trimmed_to_nothing(s.drop_first());
        assert(s =~= seq![s.first()] + s.drop_first());
        if blank(s.drop_first()) {
            assert forall|i: int| 0 <= i < s.len() implies white_space(#[trigger] s[i]) by {
                if i > 0 {
                    assert(s[i] == s.drop_first()[i - 1]);
                }
            }
        } else {
            let j = choose|j: int| 0 <= j < s.drop_first().len() && !white_space(s.drop_first()[j]);
            assert(s[j + 1] == s.drop_first()[j]);
        }
    } else if s.len() > 0 {
        trimmed_back_keeps_front(s);
    }
}

proof fn trimmed_back_keeps_front(s: Seq<char>)
    requires
        s.len() > 0,
        !white_space(s.first()),
    ensures
        trimmed_back(s).len() > 0,
    decreases s.len(),
{
    if white_space(s.last()) {
        assert(s.len() > 1);
        assert(s.drop_last().first() == s.first());
        trimmed_back_keeps_front(s.drop_last());
    }
}

/// Whether a text holds nothing but white space.
pub fn is_blank(s: &str) -> (r: bool)
    ensures
        r == blank(s@),
{
    let chars = chars_of(s);
    for i in 0..chars.len()
        invariant
            chars@ == s@,
            forall|j: int| 0 <= j < i ==> white_space(#[trigger] s@[j]),
    {
        if !is_white_space(chars[i]) {
            assert(!white_space(s@[i as int]));
            return false;
        }
    }
    true
}

/// A text without the white space at both ends.
pub fn trim(s: &str) -> (r: String)
    ensures
        r@ == trimmed(s@),
{
    let chars = chars_of(s);
    let mut from: usize = 0;
    let mut to: usize = chars.len();
    assert(s@.subrange(0, s@.len() as int) == s@);
    while from < to && is_white_space(chars[from])
        invariant
            chars@ == s@,
            from <= to == s@.len(),
            trimmed_front(s@) == trimmed_front(s@.subrange(from as int, to as int)),
        ensures
            chars@ == s@,
            from <= to == s@.len(),
            trimmed_front(s@) == s@.subrange(from as int, to as int),
        decreases to - from,
    {
        assert(s@.subrange(from as int, to as int).drop_first() == s@.subrange(from + 1, to as int));
        from = from + 1;
    }
    while from < to && is_white_space(chars[to - 1])
        invariant
            chars@ == s@,
            from <= to <= s@.len(),
            trimmed(s@) == trimmed_back(s@.subrange(from as int, to as int)),
        ensures
            chars@ == s@,
            from <= to <= s@.len(),
            trimmed(s@) == s@.subrange(from as int, to as int),
        decreases to - from,
    {
        assert(s@.subrange(from as int, to as int).drop_last() == s@.subrange(from as int, to - 1));
        to = to - 1;
    }
    text_between(&chars, from, to)
}

/// The number of bytes of a character in UTF-8.
pub open spec fn char_bytes(c: char) -> nat {
    if c <= '\u{7F}' {
        1
    } else if c <= '\u{7FF}' {
        2
    } else if c <= '\u{FFFF}' {
        3
    } else {
        4
    }
}

/// The number of bytes of a text in UTF-8.
pub open spec fn byte_len(s: Seq<char>) -> nat
    decreases s.len(),
{
    if s.len() == 0 {
        0
    } else {
        byte_len(s.drop_last()) + char_bytes(s.last())
    }
}

/// The longest beginning of a text that takes the given number of bytes at most.
pub open spec fn first_within(s: Seq<char>, bytes: nat) -> Seq<char>
    decreases s.len(),
{
    if byte_len(s) <= bytes {
        s
    } else if s.len() > 0 {
        first_within(s.drop_last(), bytes)
    } else {
        s
    }
}

/// A beginning that fits, and with one more character no longer fits, is the longest that fits.
proof fn longest_that_fits(s: Seq<char>, bytes: nat, n: int)
    requires
        0 <= n <= s.len(),
        byte_len(s.take(n)) <= bytes,
        n < s.len() ==> byte_len(s.take(n + 1)) > bytes,
    ensures
        first_within(s, bytes) == s.take(n),
    decreases s.len(),
{
    if n == s.len() {
        assert(s.take(n) =~= s);
    } else {
        byte_len_grows(s, n + 1, s.len() as int);
        assert(s.take(s.len() as int) =~= s);
        let front = s.drop_last();
        assert(front.take(n) =~= s.take(n));
        if n < front.len() {
            assert(front.take(n + 1) =~= s.take(n + 1));
        }
        longest_that_fits(front, bytes, n);
    }
}

proof fn byte_len_grows(s: Seq<char>, m: int, n: int)
    requires
        0 <= m <= n <= s.len(),
    ensures
        byte_len(s.take(n)) >= byte_len(s.take(m)) + (n - m),
    decreases n - m,
{
    if m < n {
        byte_len_grows(s, m, n - 1);
        assert(s.take(n).drop_last() =~= s.take(n - 1));
    }
}

/// The longest beginning of a text that takes the given number of bytes at most.
pub fn byte_prefix(s: &str, bytes: usize) -> (r: String)
    ensures
        r@ == first_within(s@, bytes as nat),
{
    let chars = chars_of(s);
    let mut left: usize = bytes;
    let mut at: usize = 0;
    while at < chars.len()
        invariant
            chars@ == s@,
            at <= s@.len(),
            byte_len(s@.take(at as int)) + left == bytes,
        decreases s@.len() - at,
    {
        assert(s@.take(at + 1).drop_last() =~= s@.take(at as int));
        let c = chars[at];
        let width: usize = if c <= '\u{7F}' {
            1
        } else if c <= '\u{7FF}' {
            2
        } else if c <= '\u{FFFF}' {
            3
        } else {
            4
        };
        if width > left {
            proof {
                longest_that_fits(s@, bytes as nat, at as int);
                assert(s@.take(at as int) =~= s@.subrange(0, at as int));
            }
            return text_between(&chars, 0, at);
        }
        left = left - width;
        at = at + 1;
    }
    proof {
        longest_that_fits(s@, bytes as nat, at as int);
        assert(s@.take(at as int) =~= s@.subrange(0, at as int));
    }
    text_between(&chars, 0, at)
}

/// A letter from `A` to `Z` in lower case; any other character as it is.
pub open spec fn ascii_lower(c: char) -> char {
    if 'A' <= c <= 'Z' {
        (c as u32 + 32) as char
    } else {
        c
    }
}

/// A text with its letters from `A` to `Z` in lower case.
pub open spec fn ascii_lowered(s: Seq<char>) -> Seq<char> {
    s.map_values(|c: char| ascii_lower(c))
}

fn lower_ascii(c: char) -> (r: char)
    ensures
        r == ascii_lower(c),
{
    if 'A' <= c && c <= 'Z' {
        (c as u8 + 32) as char
    } else {
        c
    }
}

/// Whether two texts are the same but for the case of the letters from `A` to `Z`.
pub fn same_but_for_case(a: &str, b: &str) -> (r: bool)
    ensures
        r == (ascii_lowered(a@) == ascii_lowered(b@)),
{
    let left = chars_of(a);
    let right = chars_of(b);
    if left.len() != right.len() {
        assert(ascii_lowered(a@).len() != ascii_lowered(b@).len());
        return false;
    }
    for i in 0..left.len()
        invariant
            left@ == a@,
            right@ == b@,
            left@.len() == right@.len(),
            forall|j: int| 0 <= j < i ==> ascii_lower(a@[j]) == ascii_lower(b@[j]),
    {
        if lower_ascii(left[i]) != lower_ascii(right[i]) {
            assert(ascii_lowered(a@)[i as int] != ascii_lowered(b@)[i as int]);
            return false;
        }
    }
    assert(ascii_lowered(a@) =~= ascii_lowered(b@));
    true
}

/// What `str::to_lowercase` makes of a text.
pub uninterp spec fn lowercase(text: Seq<char>) -> Seq<char>;

/// `str::to_lowercase`: gives the text in lower case a name. Where all characters are ASCII, the
/// letters from `A` to `Z` are replaced and the rest stays.
#[verifier::external_body]
pub(crate) fn to_lowercase(text: &str) -> (r: String)
    ensures
        r@ == lowercase(text@),
        (forall|i: int| 0 <= i < text@.len() ==> #[trigger] text@[i] <= '\u{7F}') ==> r@
            == ascii_lowered(text@),
{
    text.to_lowercase()
}

/// The digit that stands for a number below ten.
pub open spec fn digit(n: nat) -> char {
    ('0' as u32 + n) as char
}

/// A number in decimal digits, without leading zeros.
pub open spec fn decimal(n: nat) -> Seq<char>
    decreases n,
{
    if n < 10 {
        seq![digit(n)]
    } else {
        decimal(n / 10).push(digit(n % 10))
    }
}

/// A number in decimal digits, with a minus sign in front where it is negative.
pub open spec fn signed_decimal(n: int) -> Seq<char> {
    if n < 0 {
        seq!['-'] + decimal((-n) as nat)
    } else {
        decimal(n as nat)
    }
}

fn digit_of(n: u64) -> (r: char)
    requires
        n < 10,
    ensures
        r == digit(n as nat),
{
    let b: u8 = 48 + n as u8;
    b as char
}

/// Prints a number in decimal digits.
pub fn print_u64(n: u64) -> (r: String)
    ensures
        r@ == decimal(n as nat),
    decreases n,
{
    if n < 10 {
        let mut out = String::new();
        out.push(digit_of(n));
        assert(out@ =~= decimal(n as nat));
        out
    } else {
        let mut out = print_u64(n / 10);
        out.push(digit_of(n % 10));
        out
    }
}

/// Prints a signed number in decimal digits.
pub fn print_i32(n: i32) -> (r: String)
    ensures
        r@ == signed_decimal(n as int),
{
    if n < 0 {
        let mut out = String::new();
        out.push('-');
        let magnitude: i64 = -(n as i64);
        out.append(print_u64(magnitude as u64).as_str());
        assert(out@ =~= signed_decimal(n as int));
        out
    } else {
        print_u64(n as u64)
    }
}

/// The parts of a list in order, with a separator between them.
pub open spec fn joined(parts: Seq<Seq<char>>, separator: Seq<char>) -> Seq<char>
    decreases parts.len(),
{
    if parts.len() == 0 {
        Seq::empty()
    } else if parts.len() == 1 {
        parts[0]
    } else {
        joined(parts.drop_last(), separator) + separator + parts.last()
    }
}

/// Joins the parts of a list with a separator between them.
pub fn join(parts: &Vec<String>, separator: &str) -> (r: String)
    ensures
        r@ == joined(texts(parts@), separator@),
{
    let mut out = String::new();
    for i in 0..parts.len()
        invariant
            out@ == joined(texts(parts@).take(i as int), separator@),
    {
        if i > 0 {
            out.append(separator);
        }
        out.append(parts[i].as_str());
        assert(texts(parts@).take(i + 1).drop_last() == texts(parts@).take(i as int));
        assert(texts(parts@).take(i + 1).last() == parts@[i as int]@);
        assert(out@ =~= joined(texts(parts@).take(i + 1), separator@));
    }
    assert(texts(parts@).take(parts@.len() as int) == texts(parts@));
    out
}

/// The order of texts in a dictionary of code points: at the first difference the smaller
/// character comes first, and a text comes before every longer text that it begins.
pub open spec fn text_before(a: Seq<char>, b: Seq<char>) -> bool
    decreases a.len(),
{
    if b.len() == 0 {
        false
    } else if a.len() == 0 {
        true
    } else if a[0] == b[0] {
        text_before(a.drop_first(), b.drop_first())
    } else {
        a[0] < b[0]
    }
}

/// Whether one text comes before another.
pub fn comes_before(a: &str, b: &str) -> (r: bool)
    ensures
        r == text_before(a@, b@),
{
    let left = chars_of(a);
    let right = chars_of(b);
    let mut i: usize = 0;
    assert(a@.skip(0) == a@);
    assert(b@.skip(0) == b@);
    while i < left.len() && i < right.len() && left[i] == right[i]
        invariant
            left@ == a@,
            right@ == b@,
            i <= a@.len(),
            i <= b@.len(),
            text_before(a@, b@) == text_before(a@.skip(i as int), b@.skip(i as int)),
        decreases left.len() - i,
    {
        assert(a@.skip(i as int).drop_first() == a@.skip(i + 1));
        assert(b@.skip(i as int).drop_first() == b@.skip(i + 1));
        i = i + 1;
    }
    if i == right.len() {
        false
    } else if i == left.len() {
        true
    } else {
        left[i] < right[i]
    }
}

/// No text comes before itself.
pub proof fn text_before_irreflexive(a: Seq<char>)
    ensures
        !text_before(a, a),
    decreases a.len(),
{
    if a.len() > 0 {
        text_before_irreflexive(a.drop_first());
    }
}

/// What comes before a text comes before all that follows it.
pub proof fn text_before_transitive(a: Seq<char>, b: Seq<char>, c: Seq<char>)
    requires
        text_before(a, b),
        text_before(b, c),
    ensures
        text_before(a, c),
    decreases a.len(),
{
    if a.len() > 0 && b.len() > 0 && c.len() > 0 && a[0] == b[0] && b[0] == c[0] {
        text_before_transitive(a.drop_first(), b.drop_first(), c.drop_first());
    }
}

/// Of two different texts one comes before the other.
pub proof fn text_before_total(a: Seq<char>, b: Seq<char>)
    ensures
        a == b || text_before(a, b) || text_before(b, a),
    decreases a.len(),
{
    if a.len() > 0 && b.len() > 0 && a[0] == b[0] {
        text_before_total(a.drop_first(), b.drop_first());
        if a.drop_first() == b.drop_first() {
            assert(a =~= seq![a[0]] + a.drop_first());
            assert(b =~= seq![b[0]] + b.drop_first());
        }
    } else if a.len() == 0 && b.len() == 0 {
        assert(a =~= b);
    }
}

/// The view of a list of strings has the characters of each string at its place.
pub proof fn lists_keep_every_text(list: Seq<String>)
    ensures
        texts(list).len() == list.len(),
        forall|i: int| 0 <= i < list.len() ==> #[trigger] texts(list)[i] == list[i]@,
{
}

/// White space by code points: tabulator to carriage return, space, the next line, the no-break space,
/// and the spaces and separators of Ogham, general punctuation and CJK.
pub proof fn white_space_by_code_point(c: char)
    ensures
        white_space(c) <==> {
            let code = c as u32;
            ||| 9 <= code <= 13
            ||| code == 32
            ||| code == 133
            ||| code == 160
            ||| code == 5760
            ||| 8192 <= code <= 8202
            ||| code == 8232
            ||| code == 8233
            ||| code == 8239
            ||| code == 8287
            ||| code == 12288
        },
{
}

proof fn front_goes(front: Seq<char>, rest: Seq<char>)
    requires
        forall|i: int| 0 <= i < front.len() ==> white_space(#[trigger] front[i]),
        rest.len() > 0 ==> !white_space(rest[0]),
    ensures
        trimmed_front(front + rest) == rest,
    decreases front.len(),
{
    let whole = front + rest;
    if front.len() > 0 {
        assert(whole.first() == front[0]);
        assert(whole.drop_first() =~= front.drop_first() + rest);
        assert forall|i: int| 0 <= i < front.drop_first().len() implies white_space(
            #[trigger] front.drop_first()[i],
        ) by {
            assert(white_space(front[i + 1]));
        }
        front_goes(front.drop_first(), rest);
    } else {
        assert(whole =~= rest);
    }
}

proof fn back_goes(rest: Seq<char>, back: Seq<char>)
    requires
        forall|i: int| 0 <= i < back.len() ==> white_space(#[trigger] back[i]),
        rest.len() > 0 ==> !white_space(rest.last()),
    ensures
        trimmed_back(rest + back) == rest,
    decreases back.len(),
{
    let whole = rest + back;
    if back.len() > 0 {
        assert(whole.last() == back[back.len() - 1]);
        assert(whole.drop_last() =~= rest + back.drop_last());
        assert forall|i: int| 0 <= i < back.drop_last().len() implies white_space(
            #[trigger] back.drop_last()[i],
        ) by {
            assert(white_space(back[i]));
        }
        back_goes(rest, back.drop_last());
    } else {
        assert(whole =~= rest);
    }
}

/// Trimming takes the white space off both ends and nothing else: of a text between white space, which
/// itself begins and ends with something else, just that text is left.
pub proof fn trimming_leaves_what_is_between(front: Seq<char>, middle: Seq<char>, back: Seq<char>)
    requires
        forall|i: int| 0 <= i < front.len() ==> white_space(#[trigger] front[i]),
        forall|i: int| 0 <= i < back.len() ==> white_space(#[trigger] back[i]),
        middle.len() > 0 ==> !white_space(middle[0]) && !white_space(middle.last()),
    ensures
        trimmed(front + middle + back) == middle,
{
    if middle.len() > 0 {
        let rest = middle + back;
        assert(front + middle + back =~= front + rest);
        assert(rest[0] == middle[0]);
        front_goes(front, rest);
        back_goes(middle, back);
    } else {
        let all = front + back;
        assert(front + middle + back =~= all);
        assert forall|i: int| 0 <= i < all.len() implies white_space(#[trigger] all[i]) by {
            if i >= front.len() {
                assert(white_space(back[i - front.len()]));
            } else {
                assert(white_space(front[i]));
            }
        }
        front_goes(all, Seq::empty());
        assert(all + Seq::<char>::empty() =~= all);
        assert(trimmed(all) =~= Seq::<char>::empty());
        assert(middle =~= Seq::<char>::empty());
    }
}

/// Parts are joined in their order, each once, with the separator between any two of them and nowhere
/// else: what two lists give is put together with one separator more.
pub proof fn joining_keeps_every_part(
    a: Seq<Seq<char>>,
    b: Seq<Seq<char>>,
    part: Seq<char>,
    separator: Seq<char>,
)
    ensures
        joined(Seq::empty(), separator) == Seq::<char>::empty(),
        joined(seq![part], separator) == part,
        a.len() > 0 && b.len() > 0 ==> joined(a + b, separator) == joined(a, separator) + separator
            + joined(b, separator),
    decreases b.len(),
{
    if a.len() > 0 && b.len() > 0 {
        let whole = a + b;
        assert(whole.last() == b.last());
        assert(whole.drop_last() =~= a + b.drop_last());
        if b.len() == 1 {
            assert(whole.drop_last() =~= a);
            assert(joined(b, separator) == b[0]);
        } else {
            joining_keeps_every_part(a, b.drop_last(), part, separator);
            assert(joined(whole, separator) =~= joined(a, separator) + separator + joined(
                b,
                separator,
            ));
        }
    }
}

/// A number in decimal digits is read as such: a digit below ten is one of `0` to `9`, and a digit
/// behind a number makes ten times that number and the digit. A minus sign stands before a number
/// below zero.
pub proof fn decimal_digits_tell_the_number(n: nat, d: nat, c: char)
    requires
        d < 10,
        c as u32 == 48 + d,
    ensures
        decimal(d) == seq![c],
        n > 0 ==> decimal(10 * n + d) == decimal(n).push(c),
        signed_decimal(n as int) == decimal(n),
        n > 0 ==> signed_decimal(-n) == seq!['-'] + decimal(n),
{
    assert(digit(d) == c);
    assert((10 * n + d) / 10 == n && (10 * n + d) % 10 == d) by (nonlinear_arith)
        requires
            d < 10,
    ;
}

/// Putting letters in lower case changes the letters from `A` to `Z` alone, each to the letter 32 code
/// points further on.
pub proof fn lowering_changes_capital_letters_alone(s: Seq<char>, i: int)
    requires
        0 <= i < s.len(),
    ensures
        ascii_lowered(s).len() == s.len(),
        65 <= s[i] as u32 <= 90 ==> ascii_lowered(s)[i] as u32 == s[i] as u32 + 32,
        !(65 <= s[i] as u32 <= 90) ==> ascii_lowered(s)[i] == s[i],
{
}

proof fn encoded_behind_one_another(a: Seq<char>, b: Seq<char>)
    ensures
        vstd::utf8::encode_utf8(a + b) == vstd::utf8::encode_utf8(a) + vstd::utf8::encode_utf8(b),
    decreases a.len(),
{
    if a.len() == 0 {
        assert(a + b =~= b);
        assert(vstd::utf8::encode_utf8(a) + vstd::utf8::encode_utf8(b) =~= vstd::utf8::encode_utf8(
            b,
        ));
    } else {
        assert((a + b).drop_first() =~= a.drop_first() + b);
        encoded_behind_one_another(a.drop_first(), b);
        assert(vstd::utf8::encode_utf8(a + b) =~= vstd::utf8::encode_utf8(a)
            + vstd::utf8::encode_utf8(b));
    }
}

proof fn width_in_utf8(c: char)
    ensures
        char_bytes(c) == vstd::utf8::encode_scalar(c as u32).len(),
{
    vstd::utf8::char_is_scalar(c);
}

/// The length of a text in bytes is that of its UTF-8 form.
pub proof fn bytes_are_counted_in_utf8(s: Seq<char>)
    ensures
        byte_len(s) == vstd::utf8::encode_utf8(s).len(),
    decreases s.len(),
{
    if s.len() > 0 {
        let last = seq![s.last()];
        bytes_are_counted_in_utf8(s.drop_last());
        assert(s =~= s.drop_last() + last);
        encoded_behind_one_another(s.drop_last(), last);
        assert(last.drop_first() =~= Seq::<char>::empty());
        assert(vstd::utf8::encode_utf8(last.drop_first()) =~= Seq::<u8>::empty());
        width_in_utf8(s.last());
        assert(vstd::utf8::encode_utf8(last) =~= vstd::utf8::encode_scalar(s.last() as u32));
    }
}

/// A text shortened to a number of bytes is the beginning of the text, its UTF-8 form does not take
/// more bytes than that, and with one character more it would.
pub proof fn shortened_text_is_the_longest_that_fits(s: Seq<char>, bytes: nat)
    ensures
        ({
            let kept = first_within(s, bytes);
            &&& kept.len() <= s.len()
            &&& kept == s.take(kept.len() as int)
            &&& vstd::utf8::encode_utf8(kept).len() <= bytes
            &&& kept.len() < s.len() ==> vstd::utf8::encode_utf8(
                s.take(1 + kept.len() as int),
            ).len() > bytes
        }),
    decreases s.len(),
{
    bytes_are_counted_in_utf8(s);
    assert(s.take(s.len() as int) =~= s);
    if byte_len(s) > bytes {
        let front = s.drop_last();
        shortened_text_is_the_longest_that_fits(front, bytes);
        let kept = first_within(s, bytes);
        assert(kept =~= s.take(kept.len() as int));
        if kept.len() < front.len() {
            assert(front.take(1 + kept.len() as int) =~= s.take(1 + kept.len() as int));
        } else {
            assert(s.take(1 + kept.len() as int) =~= s);
        }
    }
}

/// Which of two texts comes first is settled where they differ first: by the smaller character there,
/// or by the end of one of them.
pub proof fn order_is_settled_at_the_first_difference(a: Seq<char>, b: Seq<char>, at: int)
    requires
        0 <= at <= a.len(),
        at <= b.len(),
        forall|i: int| 0 <= i < at ==> a[i] == b[i],
        at < a.len() && at < b.len() ==> a[at] != b[at],
    ensures
        text_before(a, b) <==> at < b.len() && (at == a.len() || a[at] < b[at]),
    decreases at,
{
    if at > 0 {
        assert(a[0] == b[0]);
        assert forall|i: int| 0 <= i < at - 1 implies a.drop_first()[i] == b.drop_first()[i] by {
            assert(a[i + 1] == b[i + 1]);
        }
        order_is_settled_at_the_first_difference(a.drop_first(), b.drop_first(), at - 1);
    }
}

} // verus!
