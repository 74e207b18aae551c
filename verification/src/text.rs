//! Text as sequences of characters: white space, words, ASCII case, numbers.

use vstd::prelude::*;

verus! {

/// The `White_Space` property of Unicode: its 25 code points.
pub open spec fn white_space(c: char) -> bool {
    let n = c as u32;
    ||| 0x09 <= n <= 0x0D
    ||| n == 0x20
    ||| n == 0x85
    ||| n == 0xA0
    ||| n == 0x1680
    ||| 0x2000 <= n <= 0x200A
    ||| n == 0x2028
    ||| n == 0x2029
    ||| n == 0x202F
    ||| n == 0x205F
    ||| n == 0x3000
}

/// `s` without its leading white space.
pub open spec fn without_leading(s: Seq<char>) -> Seq<char>
    decreases s.len(),
{
    if s.len() > 0 && white_space(s[0]) {
        without_leading(s.drop_first())
    } else {
        s
    }
}

/// `s` without its trailing white space.
pub open spec fn without_trailing(s: Seq<char>) -> Seq<char>
    decreases s.len(),
{
    if s.len() > 0 && white_space(s.last()) {
        without_trailing(s.drop_last())
    } else {
        s
    }
}

/// `s` without white space at either end.
pub open spec fn trimmed(s: Seq<char>) -> Seq<char> {
    without_trailing(without_leading(s))
}

/// The maximal runs of characters of `s` that are not white space, in order.
pub open spec fn words(s: Seq<char>) -> Seq<Seq<char>>
    decreases s.len(),
{
    if s.len() == 0 {
        Seq::empty()
    } else {
        let before = words(s.drop_last());
        if white_space(s.last()) {
            before
        } else if s.len() == 1 || white_space(s[s.len() - 2]) {
            before.push(seq![s.last()])
        } else {
            before.drop_last().push(before.last().push(s.last()))
        }
    }
}

/// `c` with `A` to `Z` mapped to `a` to `z`.
pub open spec fn ascii_lower(c: char) -> char {
    if 'A' <= c <= 'Z' {
        (c as u32 + 32) as char
    } else {
        c
    }
}

/// `s` with `A` to `Z` mapped to `a` to `z`.
pub open spec fn ascii_lowered(s: Seq<char>) -> Seq<char> {
    s.map_values(|c: char| ascii_lower(c))
}

/// Whether `c` is white space.
pub fn is_white_space(c: char) -> (r: bool)
    ensures
        r == white_space(c),
{
    let n: u32 = c as u32;
    (0x09 <= n && n <= 0x0D) || n == 0x20 || n == 0x85 || n == 0xA0 || n == 0x1680 || (0x2000 <= n
        && n <= 0x200A) || n == 0x2028 || n == 0x2029 || n == 0x202F || n == 0x205F || n == 0x3000
}

/// The characters of `s`.
pub fn chars_of(s: &str) -> (r: Vec<char>)
    ensures
        r@ == s@,
{
    let mut out: Vec<char> = Vec::new();
    for c in it: s.chars()
        invariant
            it.seq() == s@,
            out@ == s@.take(it.index()),
    {
        out.push(c);
    }
    out
}

/// `s` without white space at either end.
pub fn trim(s: &str) -> (r: &str)
    ensures
        r@ == trimmed(s@),
{
    let chars = chars_of(s);
    let mut lo: usize = 0;
    let mut hi: usize = chars.len();
    proof {
        assert(s@.skip(0) =~= s@);
    }
    while lo < hi && is_white_space(chars[lo])
        invariant
            lo <= hi,
            hi == chars.len(),
            chars@ == s@,
            without_leading(s@) == without_leading(s@.skip(lo as int)),
        decreases hi - lo,
    {
        proof {
            assert(s@.skip(lo as int).drop_first() =~= s@.skip(lo + 1));
        }
        lo = lo + 1;
    }
    proof {
        assert(without_leading(s@) == s@.skip(lo as int));
        assert(s@.skip(lo as int) =~= s@.subrange(lo as int, hi as int));
    }
    while lo < hi && is_white_space(chars[hi - 1])
        invariant
            lo <= hi <= chars.len(),
            chars@ == s@,
            trimmed(s@) == without_trailing(s@.subrange(lo as int, hi as int)),
        decreases hi - lo,
    {
        proof {
            assert(s@.subrange(lo as int, hi as int).drop_last() =~= s@.subrange(
                lo as int,
                hi - 1,
            ));
        }
        hi = hi - 1;
    }
    s.substring_char(lo, hi)
}

/// Whether `a` and `b` hold the same characters.
pub fn same_chars(a: &Vec<char>, b: &str) -> (r: bool)
    ensures
        r == (a@ == b@),
{
    let other = chars_of(b);
    if a.len() != other.len() {
        return false;
    }
    let mut i: usize = 0;
    while i < a.len()
        invariant
            i <= a.len(),
            a.len() == other.len(),
            other@ == b@,
            forall|k: int| 0 <= k < i ==> a@[k] == other@[k],
        decreases a.len() - i,
    {
        if a[i] != other[i] {
            return false;
        }
        i = i + 1;
    }
    proof {
        assert(a@ =~= b@);
    }
    true
}

/// `c` with `A` to `Z` mapped to `a` to `z`.
pub fn to_ascii_lower(c: char) -> (r: char)
    ensures
        r == ascii_lower(c),
{
    if 'A' <= c && c <= 'Z' {
        let lower: u8 = c as u8 + 32;
        lower as char
    } else {
        c
    }
}

/// The characters of `s`, trimmed and with `A` to `Z` mapped to `a` to `z`.
pub fn trimmed_ascii_lower(s: &str) -> (r: Vec<char>)
    ensures
        r@ == ascii_lowered(trimmed(s@)),
{
    let chars = chars_of(trim(s));
    let mut out: Vec<char> = Vec::new();
    let mut i: usize = 0;
    while i < chars.len()
        invariant
            i <= chars.len(),
            out@ == ascii_lowered(chars@.take(i as int)),
        decreases chars.len() - i,
    {
        out.push(to_ascii_lower(chars[i]));
        i = i + 1;
        proof {
            assert(out@ =~= ascii_lowered(chars@.take(i as int)));
        }
    }
    proof {
        assert(chars@.take(i as int) =~= chars@);
    }
    out
}

/// What `std::string::String::push` does: `c` is appended to `s`.
pub assume_specification[ std::string::String::push ](s: &mut String, c: char)
    ensures
        final(s)@ == old(s)@.push(c),
;

/// The words in `done`, and after them the word `open` that has not ended yet.
spec fn open_words(done: Seq<String>, open: Seq<char>) -> Seq<Seq<char>> {
    let closed = done.map_values(|w: String| w@);
    if open.len() > 0 {
        closed.push(open)
    } else {
        closed
    }
}

/// The words of `chars`: its maximal runs of characters that are not white space.
pub fn split_words(chars: &Vec<char>) -> (r: Vec<String>)
    ensures
        r@.map_values(|w: String| w@) == words(chars@),
{
    let mut done: Vec<String> = Vec::new();
    let mut open: String = String::new();
    let mut i: usize = 0;
    proof {
        assert(open_words(done@, open@) =~= words(chars@.take(0)));
    }
    while i < chars.len()
        invariant
            i <= chars.len(),
            open_words(done@, open@) == words(chars@.take(i as int)),
            open@.len() > 0 <==> (i > 0 && !white_space(chars@[i - 1])),
        decreases chars.len() - i,
    {
        let c: char = chars[i];
        let ghost before = chars@.take(i as int);
        let ghost after = chars@.take(i + 1);
        let ghost closed = done@.map_values(|w: String| w@);
        let ghost was_open = open@;
        proof {
            assert(after.drop_last() =~= before);
            assert(after.last() == c);
            assert(i > 0 ==> after[after.len() - 2] == chars@[i - 1]);
        }
        if is_white_space(c) {
            if !open.as_str().is_empty() {
                done.push(open);
                open = String::new();
                proof {
                    assert(done@.map_values(|w: String| w@) =~= closed.push(was_open));
                }
            }
        } else {
            open.push(c);
            proof {
                if was_open.len() > 0 {
                    assert(words(before).drop_last() =~= closed);
                } else {
                    assert(was_open.push(c) =~= seq![c]);
                }
            }
        }
        proof {
            assert(open_words(done@, open@) =~= words(after));
        }
        i = i + 1;
    }
    proof {
        assert(chars@.take(chars.len() as int) =~= chars@);
    }
    if !open.as_str().is_empty() {
        let ghost closed = done@.map_values(|w: String| w@);
        let ghost was_open = open@;
        done.push(open);
        proof {
            assert(done@.map_values(|w: String| w@) =~= closed.push(was_open));
        }
    }
    done
}

/// Whether every character of `s` is a decimal digit.
pub open spec fn all_digits(s: Seq<char>) -> bool {
    forall|i: int| 0 <= i < s.len() ==> '0' <= #[trigger] s[i] <= '9'
}

/// The number that the decimal digits of `s` write.
pub open spec fn decimal_value(s: Seq<char>) -> int
    decreases s.len(),
{
    if s.len() == 0 {
        0
    } else {
        decimal_value(s.drop_last()) * 10 + (s.last() as u32 - '0' as u32)
    }
}

/// `s` as a signed number: an optional `+` or `-`, then one digit or more, and a value that an
/// `i64` holds.
pub open spec fn i64_reading(s: Seq<char>) -> Option<i64> {
    let negative = s.len() > 0 && s[0] == '-';
    let digits = if s.len() > 0 && (s[0] == '+' || s[0] == '-') {
        s.drop_first()
    } else {
        s
    };
    let value = if negative {
        -decimal_value(digits)
    } else {
        decimal_value(digits)
    };
    if digits.len() > 0 && all_digits(digits) && i64::MIN <= value <= i64::MAX {
        Some(value as i64)
    } else {
        None
    }
}

/// `s` as an unsigned number: an optional `+`, then one digit or more, and a value that a `u64`
/// holds.
pub open spec fn u64_reading(s: Seq<char>) -> Option<u64> {
    let digits = if s.len() > 0 && s[0] == '+' {
        s.drop_first()
    } else {
        s
    };
    let value = decimal_value(digits);
    if digits.len() > 0 && all_digits(digits) && value <= u64::MAX {
        Some(value as u64)
    } else {
        None
    }
}

/// More digits write no smaller number.
proof fn decimal_value_grows(s: Seq<char>, n: int)
    requires
        all_digits(s),
        0 <= n <= s.len(),
    ensures
        0 <= decimal_value(s.take(n)) <= decimal_value(s),
    decreases s.len(),
{
    if s.len() == 0 {
        assert(s.take(n) =~= s);
    } else {
        let before = s.drop_last();
        assert(all_digits(before)) by {
            assert forall|i: int| 0 <= i < before.len() implies '0' <= #[trigger] before[i]
                <= '9' by {
                assert(before[i] == s[i]);
            }
        }
        decimal_value_grows(before, before.len() as int);
        assert(before.take(before.len() as int) =~= before);
        assert('0' <= s[s.len() - 1] <= '9');
        if n < s.len() {
            decimal_value_grows(before, n);
            assert(before.take(n) =~= s.take(n));
        } else {
            assert(s.take(n) =~= s);
        }
    }
}

/// The number that `chars` write from `from` on, where they are decimal digits, one or more, and
/// a `u64` holds it.
fn read_digits(chars: &Vec<char>, from: usize) -> (r: Option<u64>)
    requires
        from <= chars.len(),
    ensures
        ({
            let digits = chars@.skip(from as int);
            r == if digits.len() > 0 && all_digits(digits) && decimal_value(digits) <= u64::MAX {
                Some(decimal_value(digits) as u64)
            } else {
                None
            }
        }),
{
    let ghost digits = chars@.skip(from as int);
    if from == chars.len() {
        return None;
    }
    let mut i: usize = from;
    while i < chars.len()
        invariant
            from <= i <= chars.len(),
            digits == chars@.skip(from as int),
            forall|k: int| 0 <= k < i - from ==> '0' <= #[trigger] digits[k] <= '9',
        decreases chars.len() - i,
    {
        let c: char = chars[i];
        proof {
            assert(digits[i - from] == c);
        }
        if c < '0' || c > '9' {
            return None;
        }
        i = i + 1;
    }
    let mut value: u64 = 0;
    let mut j: usize = from;
    while j < chars.len()
        invariant
            from <= j <= chars.len(),
            digits == chars@.skip(from as int),
            all_digits(digits),
            value == decimal_value(digits.take(j - from)),
        decreases chars.len() - j,
    {
        let ghost n = j - from;
        let c: char = chars[j];
        proof {
            assert(digits[n] == c);
            assert(digits.take(n + 1).drop_last() =~= digits.take(n));
            assert(digits.take(n + 1).last() == c);
            decimal_value_grows(digits, n + 1);
        }
        let digit: u64 = c as u64 - '0' as u64;
        if value > (u64::MAX - digit) / 10 {
            return None;
        }
        value = value * 10 + digit;
        j = j + 1;
    }
    proof {
        assert(digits.take(j - from) =~= digits);
    }
    Some(value)
}

/// `s` as a signed number.
pub fn read_i64(s: &str) -> (r: Option<i64>)
    ensures
        r == i64_reading(s@),
{
    let chars = chars_of(s);
    let negative: bool = chars.len() > 0 && chars[0] == '-';
    let from: usize = if chars.len() > 0 && (chars[0] == '+' || chars[0] == '-') {
        1
    } else {
        0
    };
    proof {
        assert(s@.skip(0) =~= s@);
        if s@.len() > 0 {
            assert(s@.skip(1) =~= s@.drop_first());
        }
        let digits = s@.skip(from as int);
        if all_digits(digits) {
            decimal_value_grows(digits, 0);
        }
    }
    let size: u64 = match read_digits(&chars, from) {
        Some(size) => size,
        None => {
            return None;
        },
    };
    if negative {
        if size < 0x8000_0000_0000_0000 {
            Some(-(size as i64))
        } else if size == 0x8000_0000_0000_0000 {
            Some(i64::MIN)
        } else {
            None
        }
    } else if size < 0x8000_0000_0000_0000 {
        Some(size as i64)
    } else {
        None
    }
}

/// `s` as an unsigned number.
pub fn read_u64(s: &str) -> (r: Option<u64>)
    ensures
        r == u64_reading(s@),
{
    let chars = chars_of(s);
    let from: usize = if chars.len() > 0 && chars[0] == '+' {
        1
    } else {
        0
    };
    proof {
        assert(s@.skip(0) =~= s@);
        if s@.len() > 0 {
            assert(s@.skip(1) =~= s@.drop_first());
        }
    }
    read_digits(&chars, from)
}

/// What `str::to_lowercase` makes of `s`.
pub uninterp spec fn lowercase(s: Seq<char>) -> Seq<char>;

/// `str::to_lowercase`: the result is named. ASCII letters are lowered in addition to the others,
/// so that on text that is all ASCII it maps `A` to `Z` to `a` to `z` and nothing else, and that
/// on any text it gives the same whether they were lowered before or not. Each character is mapped
/// for itself but for sigma, which has another form at the end of a word, and where a word ends
/// does not depend on the case of its letters. What becomes of characters beyond ASCII is left to
/// the name.
#[verifier::external_body]
pub(crate) fn to_lowercase(s: &str) -> (r: String)
    ensures
        r@ == lowercase(s@),
        r@ == lowercase(ascii_lowered(s@)),
        vstd::utf8::is_ascii_chars(s@) ==> r@ == ascii_lowered(s@),
{
    s.to_lowercase()
}

/// `parts` one after the other, with a comma between two of them.
pub open spec fn joined(parts: Seq<Seq<char>>) -> Seq<char>
    decreases parts.len(),
{
    if parts.len() == 0 {
        Seq::empty()
    } else if parts.len() == 1 {
        parts[0]
    } else {
        joined(parts.drop_last()) + seq![','] + parts.last()
    }
}

/// `parts` one after the other, with a comma between two of them.
pub fn join(parts: &Vec<String>) -> (r: String)
    ensures
        r@ == joined(parts@.map_values(|p: String| p@)),
{
    let ghost all = parts@.map_values(|p: String| p@);
    let mut out: String = String::new();
    let mut i: usize = 0;
    while i < parts.len()
        invariant
            i <= parts.len(),
            all == parts@.map_values(|p: String| p@),
            out@ == joined(all.take(i as int)),
        decreases parts.len() - i,
    {
        proof {
            assert(all.take(i + 1).drop_last() =~= all.take(i as int));
            assert(all.take(i + 1).last() == parts@[i as int]@);
        }
        if i > 0 {
            out.push(',');
            proof {
                assert(out@ =~= joined(all.take(i as int)) + seq![',']);
            }
        }
        out.append(parts[i].as_str());
        i = i + 1;
        proof {
            assert(out@ =~= joined(all.take(i as int)));
        }
    }
    proof {
        assert(all.take(i as int) =~= all);
    }
    out
}

/// Text that does not begin with white space keeps its beginning.
proof fn without_trailing_keeps_head(s: Seq<char>)
    requires
        s.len() > 0,
        !white_space(s[0]),
    ensures
        without_trailing(s).len() > 0,
        without_trailing(s)[0] == s[0],
        without_leading(without_trailing(s)) == without_trailing(s),
    decreases s.len(),
{
    if white_space(s.last()) {
        without_trailing_keeps_head(s.drop_last());
    }
}

/// What is left of leading white space does not begin with any.
proof fn without_leading_is_bare(s: Seq<char>)
    ensures
        without_leading(s).len() > 0 ==> !white_space(without_leading(s)[0]),
    decreases s.len(),
{
    if s.len() > 0 && white_space(s[0]) {
        without_leading_is_bare(s.drop_first());
    }
}

/// What is left of trailing white space does not end with any.
proof fn without_trailing_is_bare(s: Seq<char>)
    ensures
        without_trailing(s).len() > 0 ==> !white_space(without_trailing(s).last()),
        without_trailing(without_trailing(s)) == without_trailing(s),
    decreases s.len(),
{
    if s.len() > 0 && white_space(s.last()) {
        without_trailing_is_bare(s.drop_last());
    }
}

/// Trimmed text neither begins nor ends with white space, and trimming it again changes nothing.
pub proof fn trimming_is_idempotent(s: Seq<char>)
    ensures
        trimmed(s).len() > 0 ==> !white_space(trimmed(s)[0]) && !white_space(trimmed(s).last()),
        trimmed(trimmed(s)) == trimmed(s),
{
    let bare = without_leading(s);
    without_leading_is_bare(s);
    without_trailing_is_bare(bare);
    if bare.len() > 0 {
        without_trailing_keeps_head(bare);
    }
}

/// Whether `w` is not empty and holds no white space.
pub open spec fn solid(w: Seq<char>) -> bool {
    w.len() > 0 && forall|k: int| 0 <= k < w.len() ==> !white_space(#[trigger] w[k])
}

/// A word is not empty, and holds no white space. Text that ends without white space has a word.
pub proof fn words_are_solid(s: Seq<char>)
    ensures
        forall|i: int| 0 <= i < words(s).len() ==> solid(#[trigger] words(s)[i]),
        s.len() > 0 && !white_space(s.last()) ==> words(s).len() > 0,
    decreases s.len(),
{
    if s.len() > 0 {
        let before = words(s.drop_last());
        words_are_solid(s.drop_last());
        if s.len() > 1 {
            assert(s.drop_last().last() == s[s.len() - 2]);
        }
        assert forall|i: int| 0 <= i < words(s).len() implies solid(#[trigger] words(s)[i]) by {
            if i < before.len() - 1 {
                assert(words(s)[i] == before[i]);
            } else if i == before.len() - 1 {
                assert(solid(before[i]));
            }
        }
    }
}

/// White space in front of text adds no word.
proof fn leading_space_adds_no_word(s: Seq<char>)
    requires
        s.len() > 0,
        white_space(s[0]),
    ensures
        words(s) == words(s.drop_first()),
    decreases s.len(),
{
    let rest = s.drop_first();
    if s.len() == 1 {
        assert(s.drop_last() =~= Seq::empty());
        assert(rest =~= Seq::empty());
    } else {
        leading_space_adds_no_word(s.drop_last());
        assert(s.drop_last().drop_first() =~= rest.drop_last());
        assert(s.last() == rest.last());
        if s.len() == 2 {
            assert(rest.drop_last() =~= Seq::empty());
        } else {
            assert(s[s.len() - 2] == rest[rest.len() - 2]);
        }
    }
}

/// Leading white space does not matter to the words of a text.
proof fn words_without_leading(s: Seq<char>)
    ensures
        words(without_leading(s)) == words(s),
    decreases s.len(),
{
    if s.len() > 0 && white_space(s[0]) {
        leading_space_adds_no_word(s);
        words_without_leading(s.drop_first());
    }
}

/// Trailing white space does not matter to the words of a text.
proof fn words_without_trailing(s: Seq<char>)
    ensures
        words(without_trailing(s)) == words(s),
    decreases s.len(),
{
    if s.len() > 0 && white_space(s.last()) {
        words_without_trailing(s.drop_last());
    }
}

/// A text and its trimmed form have the same words.
pub proof fn trimming_keeps_words(s: Seq<char>)
    ensures
        words(trimmed(s)) == words(s),
{
    words_without_leading(s);
    words_without_trailing(without_leading(s));
}

/// Text is all ASCII exactly if it is so in lower case, and lowering it again changes nothing.
pub proof fn ascii_lowering_is_idempotent(s: Seq<char>)
    ensures
        ascii_lowered(ascii_lowered(s)) == ascii_lowered(s),
        vstd::utf8::is_ascii_chars(s) <==> vstd::utf8::is_ascii_chars(ascii_lowered(s)),
{
    let lower = ascii_lowered(s);
    assert(ascii_lowered(lower) =~= lower);
    if vstd::utf8::is_ascii_chars(lower) {
        assert forall|i: int| 0 <= i < s.len() implies '\0' <= #[trigger] s[i] <= '\u{7f}' by {
            assert('\0' <= lower[i] <= '\u{7f}');
        }
    }
}

/// White space is what Unicode gives the property `White_Space`, and nothing between or beyond: the
/// controls from the tab to the carriage return, the space, the next line, the no-break space, the
/// Ogham space, the quads and spaces of general punctuation, and the ideographic space.
pub proof fn white_space_by_range(c: char, r: bool)
    requires
        call_ensures(is_white_space, (c,), r),
    ensures
        r == white_space(c),
        c < '\t' ==> !r,
        '\t' <= c <= '\r' ==> r,
        '\r' < c < ' ' ==> !r,
        c == ' ' ==> r,
        ' ' < c < '\u{85}' ==> !r,
        c == '\u{85}' ==> r,
        '\u{85}' < c < '\u{a0}' ==> !r,
        c == '\u{a0}' ==> r,
        '\u{a0}' < c < '\u{1680}' ==> !r,
        c == '\u{1680}' ==> r,
        '\u{1680}' < c < '\u{2000}' ==> !r,
        '\u{2000}' <= c <= '\u{200a}' ==> r,
        '\u{200a}' < c < '\u{2028}' ==> !r,
        '\u{2028}' <= c <= '\u{2029}' ==> r,
        '\u{2029}' < c < '\u{202f}' ==> !r,
        c == '\u{202f}' ==> r,
        '\u{202f}' < c < '\u{205f}' ==> !r,
        c == '\u{205f}' ==> r,
        '\u{205f}' < c < '\u{3000}' ==> !r,
        c == '\u{3000}' ==> r,
        '\u{3000}' < c ==> !r,
{
}

/// White space in front is taken off.
proof fn without_leading_drops(before: Seq<char>, rest: Seq<char>)
    requires
        forall|i: int| 0 <= i < before.len() ==> white_space(#[trigger] before[i]),
    ensures
        without_leading(before + rest) == without_leading(rest),
    decreases before.len(),
{
    if before.len() == 0 {
        assert(before + rest =~= rest);
    } else {
        assert((before + rest)[0] == before[0]);
        assert((before + rest).drop_first() =~= before.drop_first() + rest);
        without_leading_drops(before.drop_first(), rest);
    }
}

/// White space behind is taken off.
proof fn without_trailing_drops(rest: Seq<char>, after: Seq<char>)
    requires
        forall|i: int| 0 <= i < after.len() ==> white_space(#[trigger] after[i]),
    ensures
        without_trailing(rest + after) == without_trailing(rest),
    decreases after.len(),
{
    if after.len() == 0 {
        assert(rest + after =~= rest);
    } else {
        assert((rest + after).last() == after.last());
        assert((rest + after).drop_last() =~= rest + after.drop_last());
        without_trailing_drops(rest, after.drop_last());
    }
}

/// Trimming takes the white space off both ends, and nothing else: what is left of `before`,
/// `core` and `after` is `core`, where white space stands before and after and `core` begins and
/// ends with none.
pub proof fn trimming_leaves_the_core(
    s: &str,
    r: &str,
    before: Seq<char>,
    core: Seq<char>,
    after: Seq<char>,
)
    requires
        call_ensures(trim, (s,), r),
        s@ == before + core + after,
        forall|i: int| 0 <= i < before.len() ==> white_space(#[trigger] before[i]),
        forall|i: int| 0 <= i < after.len() ==> white_space(#[trigger] after[i]),
        core.len() > 0 ==> !white_space(core[0]) && !white_space(core.last()),
    ensures
        r@ == core,
        trimmed(s@) == core,
{
    assert(s@ =~= before + (core + after));
    without_leading_drops(before, core + after);
    if core.len() > 0 {
        assert((core + after)[0] == core[0]);
        without_trailing_drops(core, after);
    } else {
        assert(core + after =~= after + core);
        without_leading_drops(after, core);
        assert(core =~= Seq::empty());
    }
}

/// Words end at white space: the words of two texts with white space between them are the words
/// of the one and then those of the other.
pub proof fn white_space_parts_words(a: Seq<char>, gap: char, b: Seq<char>)
    requires
        white_space(gap),
    ensures
        words(a + seq![gap] + b) == words(a) + words(b),
    decreases b.len(),
{
    let s = a + seq![gap] + b;
    if b.len() == 0 {
        assert(s.drop_last() =~= a);
        assert(words(a) + words(b) =~= words(a));
    } else {
        assert(s.drop_last() =~= a + seq![gap] + b.drop_last());
        assert(s.last() == b.last());
        white_space_parts_words(a, gap, b.drop_last());
        words_are_solid(b.drop_last());
        if white_space(b.last()) {
        } else if b.len() == 1 {
            assert(s[s.len() - 2] == gap);
            assert(b.drop_last() =~= Seq::empty());
            assert(words(s) =~= words(a) + words(b));
        } else {
            assert(s[s.len() - 2] == b[b.len() - 2]);
            assert(b.drop_last().last() == b[b.len() - 2]);
            assert(words(s) =~= words(a) + words(b));
        }
    }
}

/// Nothing but white space parts words: text without any is one word, and no text is none.
pub proof fn solid_text_is_one_word(w: Seq<char>)
    requires
        forall|i: int| 0 <= i < w.len() ==> !white_space(#[trigger] w[i]),
    ensures
        w.len() > 0 ==> words(w) == seq![w],
        w.len() == 0 ==> words(w) == Seq::<Seq<char>>::empty(),
    decreases w.len(),
{
    if w.len() > 0 {
        let before = w.drop_last();
        assert forall|i: int| 0 <= i < before.len() implies !white_space(#[trigger] before[i]) by {
            assert(before[i] == w[i]);
        }
        solid_text_is_one_word(before);
        if w.len() == 1 {
            assert(words(before) =~= Seq::empty());
            assert(seq![w.last()] =~= w);
            assert(words(w) =~= seq![w]);
        } else {
            assert(before.push(w.last()) =~= w);
            assert(words(w) =~= seq![w]);
        }
    }
}

/// A letter of the English alphabet in upper case becomes the one in lower case in its place, and
/// every other character stays.
pub proof fn ascii_lower_by_alphabet(c: char, r: char, i: int)
    requires
        call_ensures(to_ascii_lower, (c,), r),
    ensures
        r == ascii_lower(c),
        0 <= i < 26 && c == "ABCDEFGHIJKLMNOPQRSTUVWXYZ"@[i] ==> r
            == "abcdefghijklmnopqrstuvwxyz"@[i],
        !"ABCDEFGHIJKLMNOPQRSTUVWXYZ"@.contains(c) ==> r == c,
{
    reveal_strlit("ABCDEFGHIJKLMNOPQRSTUVWXYZ");
    reveal_strlit("abcdefghijklmnopqrstuvwxyz");
    let upper = "ABCDEFGHIJKLMNOPQRSTUVWXYZ"@;
    let lower = "abcdefghijklmnopqrstuvwxyz"@;
    assert forall|k: int| 0 <= k < 26 implies upper[k] as u32 == 'A' as u32 + k && lower[k] as u32
        == 'a' as u32 + k by {
        if k < 13 {
            assert(k == 0 || k == 1 || k == 2 || k == 3 || k == 4 || k == 5 || k == 6 || k == 7 || k
                == 8 || k == 9 || k == 10 || k == 11 || k == 12);
        } else {
            assert(k == 13 || k == 14 || k == 15 || k == 16 || k == 17 || k == 18 || k == 19 || k
                == 20 || k == 21 || k == 22 || k == 23 || k == 24 || k == 25);
        }
    }
    if 'A' <= c <= 'Z' {
        let k = c as u32 - 'A' as u32;
        assert(upper[k] == c);
        assert(upper.contains(c));
    }
}

/// Lower case is made character by character.
pub proof fn ascii_lowering_goes_by_character(s: Seq<char>, i: int)
    ensures
        ascii_lowered(s).len() == s.len(),
        0 <= i < s.len() ==> ascii_lowered(s)[i] == ascii_lower(s[i]),
{
}

/// Digits are read from the left: one digit is its place in `0123456789`, and one more digit makes
/// ten times the number and the digit, while a `u64` holds it. Anything but a digit at the end
/// makes a text no number, and a text that is none is not made one by more digits, but for the
/// empty text and a plus sign alone.
pub proof fn digits_are_read_from_the_left(s: Seq<char>, c: char, digit: int)
    ensures
        u64_reading(Seq::empty()) is None,
        0 <= digit < 10 && c == "0123456789"@[digit] ==> {
            &&& u64_reading(seq![c]) == Some(digit as u64)
            &&& u64_reading(s) matches Some(n) ==> u64_reading(s.push(c)) == if n * 10 + digit
                <= 18_446_744_073_709_551_615 {
                Some((n * 10 + digit) as u64)
            } else {
                None
            }
            &&& u64_reading(s) is None && s.len() > 0 && s != seq!['+'] ==> u64_reading(
                s.push(c),
            ) is None
        },
        !"0123456789"@.contains(c) ==> u64_reading(s.push(c)) is None,
{
    reveal_strlit("0123456789");
    let known = "0123456789"@;
    assert forall|k: int| 0 <= k < 10 implies known[k] as u32 == '0' as u32 + k by {
        assert(k == 0 || k == 1 || k == 2 || k == 3 || k == 4 || k == 5 || k == 6 || k == 7 || k
            == 8 || k == 9);
    }
    if '0' <= c <= '9' {
        assert(known[c as u32 - '0' as u32] == c);
        assert(known.contains(c));
    }
    let from: int = if s.len() > 0 && s[0] == '+' {
        1
    } else {
        0
    };
    let digits = s.skip(from);
    let more = s.push(c);
    assert(s.len() > 0 && s[0] == '+' ==> s.drop_first() =~= digits);
    assert(from == 0 ==> s =~= digits);
    assert(more.skip(from) =~= digits.push(c));
    if s.len() > 0 {
        assert(more[0] == s[0]);
        assert(s[0] == '+' ==> more.drop_first() =~= digits.push(c));
        assert(s[0] != '+' ==> more =~= digits.push(c));
    }
    assert(digits.push(c).drop_last() =~= digits);
    assert(digits.push(c).last() == c);
    if 0 <= digit < 10 && c == known[digit] {
        assert(decimal_value(seq![c]) == digit) by {
            reveal_with_fuel(decimal_value, 2);
        }
        if all_digits(digits) {
            decimal_value_grows(digits, 0);
            assert(all_digits(digits.push(c)));
        } else {
            let k = choose|k: int| 0 <= k < digits.len() && !('0' <= #[trigger] digits[k] <= '9');
            assert(digits.push(c)[k] == digits[k]);
        }
        if s.len() > 0 && digits.len() == 0 {
            assert(s =~= seq!['+']);
        }
    }
    if !known.contains(c) {
        if s.len() == 0 {
            assert(more =~= seq![c]);
            assert(more[0] == c);
            assert(!all_digits(more));
            assert(more.drop_first() =~= Seq::empty());
        } else {
            assert(digits.push(c)[digits.len() as int] == c);
        }
    }
}

/// A plus sign in front of a number that has no sign changes nothing, and a second sign makes it
/// none.
pub proof fn plus_signs_change_nothing(s: Seq<char>)
    ensures
        s.len() > 0 && s[0] != '+' ==> u64_reading(seq!['+'] + s) == u64_reading(s),
        s.len() == 0 || s[0] == '+' ==> u64_reading(seq!['+'] + s) is None,
{
    let signed = seq!['+'] + s;
    assert(signed[0] == '+');
    assert(signed.drop_first() =~= s);
    if s.len() > 0 && s[0] == '+' {
        assert(!all_digits(s));
    }
}

/// A signed number is an unsigned one that an `i64` holds, with a minus sign in front or not.
pub proof fn signed_numbers_are_read_like_unsigned_ones(s: Seq<char>)
    ensures
        s.len() > 0 && s[0] == '-' ==> u64_reading(s) is None,
        s.len() == 0 || s[0] != '-' ==> i64_reading(s) == match u64_reading(s) {
            Some(n) => if n < 0x8000_0000_0000_0000 {
                Some(n as i64)
            } else {
                None
            },
            None => None,
        },
        s.len() > 0 && s[0] != '+' ==> i64_reading(seq!['-'] + s) == match u64_reading(s) {
            Some(n) => if n <= 0x8000_0000_0000_0000 {
                Some((-n) as i64)
            } else {
                None
            },
            None => None,
        },
        s.len() == 0 || s[0] == '+' ==> i64_reading(seq!['-'] + s) is None,
{
    let minus = seq!['-'] + s;
    assert(minus[0] == '-');
    assert(minus.drop_first() =~= s);
    if s.len() > 0 && (s[0] == '+' || s[0] == '-') {
        assert(!all_digits(s));
    }
    if all_digits(s) {
        decimal_value_grows(s, 0);
    }
    if s.len() > 0 && all_digits(s.drop_first()) {
        decimal_value_grows(s.drop_first(), 0);
    }
}

/// Between two lists that are joined stands one comma, and a list of one is its text.
pub proof fn joining_puts_one_comma_between(a: Seq<Seq<char>>, b: Seq<Seq<char>>, part: Seq<char>)
    ensures
        joined(Seq::empty()) == Seq::<char>::empty(),
        joined(seq![part]) == part,
        a.len() > 0 && b.len() > 0 ==> joined(a + b) == joined(a) + seq![','] + joined(b),
    decreases b.len(),
{
    if a.len() > 0 && b.len() > 0 {
        assert((a + b).last() == b.last());
        if b.len() == 1 {
            assert((a + b).drop_last() =~= a);
        } else {
            assert((a + b).drop_last() =~= a + b.drop_last());
            joining_puts_one_comma_between(a, b.drop_last(), part);
            assert(joined(a + b) =~= joined(a) + seq![','] + joined(b));
        }
    }
}

} // verus!
