//! Character- and byte-level helpers for building fixed-width text.

use vstd::prelude::*;
use vstd::std_specs::iter::IteratorSpec;

verus! {

/// `String::push` appends one character.
pub assume_specification[ String::push ](s: &mut String, c: char)
    ensures
        final(s)@ == old(s)@.push(c),
;

/// Whether a character is white space: one of the characters with the
/// Unicode property White_Space. These are the tab, the four line and page
/// breaks behind it, the space, the next-line control, the no-break space,
/// the Ogham space mark, the spaces of fixed width from U+2000 to U+200A,
/// the line and paragraph separators, the narrow no-break space, the medium
/// mathematical space and the ideographic space.
pub open spec fn is_white_space(c: char) -> bool {
    let u = c as u32;
    ||| 0x09 <= u <= 0x0d
    ||| u == 0x20
    ||| u == 0x85
    ||| u == 0xa0
    ||| u == 0x1680
    ||| 0x2000 <= u <= 0x200a
    ||| u == 0x2028
    ||| u == 0x2029
    ||| u == 0x202f
    ||| u == 0x205f
    ||| u == 0x3000
}

/// A text without the white space at its start.
pub open spec fn without_leading_white_space(s: Seq<char>) -> Seq<char>
    decreases s.len(),
{
    if s.len() > 0 && is_white_space(s[0]) {
        without_leading_white_space(s.skip(1))
    } else {
        s
    }
}

/// A text without the white space at its end.
pub open spec fn without_trailing_white_space(s: Seq<char>) -> Seq<char>
    decreases s.len(),
{
    if s.len() > 0 && is_white_space(s.last()) {
        without_trailing_white_space(s.drop_last())
    } else {
        s
    }
}

/// A text without the white space at its two ends.
pub open spec fn trimmed(s: Seq<char>) -> Seq<char> {
    without_trailing_white_space(without_leading_white_space(s))
}

/// `str::trim` returns the text without the white space, in Unicode's
/// sense, at its two ends.
pub assume_specification[ str::trim ](s: &str) -> (out: &str)
    ensures
        out@ == trimmed(s@),
;

/// The characters of `s`, as a vector.
pub fn chars_of(s: &str) -> (out: Vec<char>)
    ensures
        out@ == s@,
{
    let mut out: Vec<char> = Vec::new();
    for c in it: s.chars()
        invariant
            out@ == it.seq().take(it.index() as int),
            it.seq() == s@,
    {
        out.push(c);
    }
    out
}

/// Whether `needle` occurs in `haystack` as a run of neighbouring
/// characters.
pub open spec fn has_substring(haystack: Seq<char>, needle: Seq<char>) -> bool {
    exists|i: int|
        0 <= i <= haystack.len() - needle.len() && #[trigger] haystack.subrange(
            i,
            i + needle.len(),
        ) == needle
}

/// Whether `needle` occurs at index `at` of `haystack`.
fn occurs_at(haystack: &Vec<char>, needle: &Vec<char>, at: usize) -> (b: bool)
    requires
        at + needle.len() <= haystack.len(),
    ensures
        b == (haystack@.subrange(at as int, at + needle.len()) == needle@),
{
    let mut k: usize = 0;
    while k < needle.len()
        invariant
            k <= needle.len(),
            at + needle.len() <= haystack.len(),
            forall|j: int| 0 <= j < k ==> haystack@[at + j] == needle@[j],
        decreases needle.len() - k,
    {
        if haystack[at + k] != needle[k] {
            assert(haystack@.subrange(at as int, at + needle.len())[k as int] != needle@[
                k as int
            ]);
            return false;
        }
        k += 1;
    }
    assert(haystack@.subrange(at as int, at + needle.len()) =~= needle@);
    true
}

/// Whether `needle` occurs in `haystack`.
pub fn contains_text(haystack: &str, needle: &str) -> (b: bool)
    ensures
        b == has_substring(haystack@, needle@),
{
    let h = chars_of(haystack);
    let n = chars_of(needle);
    if n.len() > h.len() {
        return false;
    }
    if n.len() == 0 {
        assert(haystack@.subrange(0int, 0int + needle@.len()) =~= needle@);
        return true;
    }
    let last: usize = h.len() - n.len();
    let mut i: usize = 0;
    while i <= last
        invariant
            last == h.len() - n.len(),
            last < usize::MAX,
            i <= last + 1,
            h@ == haystack@,
            n@ == needle@,
            forall|j: int| 0 <= j < i ==> #[trigger] h@.subrange(j, j + n.len()) != n@,
        decreases last + 1 - i,
    {
        if occurs_at(&h, &n, i) {
            return true;
        }
        i += 1;
    }
    false
}

/// Whether the character `c` occurs in `s`.
pub fn contains_char(s: &str, c: char) -> (b: bool)
    ensures
        b == s@.contains(c),
{
    let chars = chars_of(s);
    let mut i: usize = 0;
    while i < chars.len()
        invariant
            i <= chars.len(),
            chars@ == s@,
            forall|j: int| 0 <= j < i ==> chars@[j] != c,
        decreases chars.len() - i,
    {
        if chars[i] == c {
            return true;
        }
        i += 1;
    }
    false
}

/// The index of the first `x` in `s`, or the length of `s` if there is none.
pub open spec fn first_index<T>(s: Seq<T>, x: T) -> int
    decreases s.len(),
{
    if s.len() == 0 || s[0] == x {
        0
    } else {
        1 + first_index(s.skip(1), x)
    }
}

/// A line without the carriage return that stood before its line feed.
pub open spec fn strip_line_end(line: Seq<u8>) -> Seq<u8> {
    if line.len() > 0 && line.last() == 0x0d {
        line.drop_last()
    } else {
        line
    }
}

/// The lines of a text: split after each line feed, the line feed and a
/// carriage return right before it taken off. A last line without a line feed
/// stays as it is; nothing follows a final line feed.
pub open spec fn lines(bytes: Seq<u8>) -> Seq<Seq<u8>>
    decreases bytes.len(),
{
    let n = first_index(bytes, 0x0au8);
    if bytes.len() == 0 {
        Seq::empty()
    } else if 0 <= n < bytes.len() {
        seq![strip_line_end(bytes.take(n))] + lines(bytes.skip(n + 1))
    } else {
        seq![bytes]
    }
}

/// `first_index` is the one index that holds `x`, or the end, before which
/// no `x` stands.
pub proof fn lemma_first_index<T>(s: Seq<T>, x: T, n: int)
    requires
        0 <= n <= s.len(),
        forall|k: int| 0 <= k < n ==> s[k] != x,
        n < s.len() ==> s[n] == x,
    ensures
        first_index(s, x) == n,
    decreases n,
{
    if n > 0 {
        let rest = s.skip(1);
        assert forall|k: int| 0 <= k < n - 1 implies rest[k] != x by {
            assert(rest[k] == s[k + 1]);
        }
        lemma_first_index(rest, x, n - 1);
    }
}

/// `n` spaces.
pub open spec fn spaces(n: nat) -> Seq<char> {
    Seq::new(n, |i: int| ' ')
}

/// A text filled up with spaces at its end to `width` characters; a longer
/// text stays as it is.
pub open spec fn padded(text: Seq<char>, width: nat) -> Seq<char> {
    if text.len() < width {
        text + spaces((width - text.len()) as nat)
    } else {
        text
    }
}

/// A text filled up with spaces at its start to `width` characters; a longer
/// text stays as it is.
pub open spec fn right_aligned(text: Seq<char>, width: nat) -> Seq<char> {
    if text.len() < width {
        spaces((width - text.len()) as nat) + text
    } else {
        text
    }
}

/// The character of one decimal digit.
pub open spec fn digit(d: nat) -> char {
    ((0x30 + d) as u8) as char
}

/// A number in decimal, without sign or leading zeros.
pub open spec fn decimal(n: nat) -> Seq<char>
    decreases n,
{
    if n < 10 {
        seq![digit(n)]
    } else {
        decimal(n / 10).push(digit(n % 10))
    }
}

/// A decimal number has at least one digit.
pub proof fn lemma_decimal_len(n: nat)
    ensures
        decimal(n).len() >= 1,
    decreases n,
{
    if n >= 10 {
        lemma_decimal_len(n / 10);
    }
}

/// Append `n` spaces.
pub fn push_spaces(s: &mut String, n: usize)
    ensures
        final(s)@ == old(s)@ + spaces(n as nat),
{
    let mut i: usize = 0;
    assert(s@ =~= old(s)@ + spaces(0));
    while i < n
        invariant
            i <= n,
            s@ == old(s)@ + spaces(i as nat),
        decreases n - i,
    {
        s.push(' ');
        i += 1;
        assert(s@ =~= old(s)@ + spaces(i as nat));
    }
}

/// `n` spaces.
pub fn repeat_space(n: usize) -> (out: String)
    ensures
        out@ == spaces(n as nat),
{
    let mut out = String::new();
    push_spaces(&mut out, n);
    assert(out@ =~= spaces(n as nat));
    out
}

/// The text, left-aligned in a field of `width` characters.
pub fn pad_end(text: &str, width: usize) -> (out: String)
    ensures
        out@ == padded(text@, width as nat),
{
    let len = text.unicode_len();
    let mut out = String::from_str(text);
    if len < width {
        push_spaces(&mut out, width - len);
    }
    out
}

/// The text, right-aligned in a field of `width` characters.
pub fn pad_start(text: &str, width: usize) -> (out: String)
    ensures
        out@ == right_aligned(text@, width as nat),
{
    let len = text.unicode_len();
    let mut out = String::new();
    if len < width {
        push_spaces(&mut out, width - len);
    }
    out.append(text);
    assert(out@ =~= right_aligned(text@, width as nat));
    out
}

/// Append a number of up to 64 bits in decimal.
pub fn push_decimal_u64(out: &mut String, n: u64)
    ensures
        final(out)@ == old(out)@ + decimal(n as nat),
    decreases n,
{
    if n >= 10 {
        push_decimal_u64(out, n / 10);
    }
    let d: u8 = (n % 10) as u8;
    out.push((0x30u8 + d) as char);
    assert(out@ =~= old(out)@ + decimal(n as nat));
}

/// Append a number in decimal.
pub fn push_decimal(out: &mut String, n: usize)
    ensures
        final(out)@ == old(out)@ + decimal(n as nat),
{
    push_decimal_u64(out, n as u64);
}

/// A number in decimal.
pub fn decimal_string(n: usize) -> (out: String)
    ensures
        out@ == decimal(n as nat),
{
    let mut out = String::new();
    push_decimal(&mut out, n);
    assert(out@ =~= decimal(n as nat));
    out
}

/// The first `n` characters of a text, or all of a shorter one.
pub fn take_chars(text: &str, n: usize) -> (out: &str)
    ensures
        out@ == text@.take(if n <= text@.len() {
            n as int
        } else {
            text@.len() as int
        }),
{
    let len = text.unicode_len();
    let end = if n <= len {
        n
    } else {
        len
    };
    let out = text.substring_char(0, end);
    assert(out@ =~= text@.take(end as int));
    out
}

/// The index behind which a text is split to keep `n` characters and one
/// more in front: `n + 1`, or the length of a text that is not longer than
/// `n`.
pub open spec fn cut_after(text: Seq<char>, n: nat) -> int {
    if n < text.len() {
        n as int + 1
    } else {
        text.len() as int
    }
}

/// Split a text behind its first `n + 1` characters.
pub fn split_after(text: &str, n: usize) -> (parts: (String, String))
    ensures
        parts.0@ == text@.take(cut_after(text@, n as nat)),
        parts.1@ == text@.skip(cut_after(text@, n as nat)),
{
    let chars = chars_of(text);
    let cut: usize = if n < chars.len() {
        n + 1
    } else {
        chars.len()
    };
    let mut front = String::new();
    let mut back = String::new();
    let mut k: usize = 0;
    assert(front@ =~= chars@.take(0));
    while k < cut
        invariant
            k <= cut <= chars.len(),
            front@ == chars@.take(k as int),
        decreases cut - k,
    {
        front.push(chars[k]);
        k += 1;
        assert(front@ =~= chars@.take(k as int));
    }
    assert(back@ =~= chars@.subrange(cut as int, k as int));
    while k < chars.len()
        invariant
            cut <= k <= chars.len(),
            back@ == chars@.subrange(cut as int, k as int),
        decreases chars.len() - k,
    {
        back.push(chars[k]);
        k += 1;
        assert(back@ =~= chars@.subrange(cut as int, k as int));
    }
    assert(chars@.subrange(cut as int, chars.len() as int) =~= chars@.skip(cut as int));
    (front, back)
}

/// The index of the last `c` in `s`, or -1 if there is none.
pub open spec fn last_index(s: Seq<char>, c: char) -> int
    decreases s.len(),
{
    if s.len() == 0 {
        -1
    } else if s.last() == c {
        s.len() - 1
    } else {
        last_index(s.drop_last(), c)
    }
}

/// A text without the spaces at its end.
pub open spec fn without_trailing_spaces(s: Seq<char>) -> Seq<char>
    decreases s.len(),
{
    if s.len() > 0 && s.last() == ' ' {
        without_trailing_spaces(s.drop_last())
    } else {
        s
    }
}

/// Where a text is cut so that at most `room` characters stay and no word
/// is cut in two: at `room` itself if a word ends there, else before the
/// last space among the first `room` characters, else at the very start.
pub open spec fn word_end(text: Seq<char>, room: int) -> int {
    let cut = last_index(text.take(room), ' ');
    if 0 <= room < text.len() && text[room] == ' ' {
        room
    } else if cut >= 0 {
        cut
    } else {
        0
    }
}

/// A text cut down to at most `max` characters. A text that fits stays as
/// it is. Of a longer one as many whole words stay as fit together with an
/// ellipsis, the spaces behind them go, and the ellipsis follows; where not
/// even the first word fits, the ellipsis stands alone. Nothing at all fits
/// into no characters.
pub open spec fn truncated(text: Seq<char>, max: nat) -> Seq<char> {
    if text.len() <= max {
        text
    } else if max == 0 {
        Seq::empty()
    } else {
        without_trailing_spaces(text.take(word_end(text, max - 1))).push('…')
    }
}

/// Taking spaces off the end leaves a text no longer than it was.
pub proof fn lemma_without_trailing_spaces_len(s: Seq<char>)
    ensures
        without_trailing_spaces(s).len() <= s.len(),
    decreases s.len(),
{
    if s.len() > 0 && s.last() == ' ' {
        lemma_without_trailing_spaces_len(s.drop_last());
    }
}

/// The last index of a character lies inside the text, or is -1.
pub proof fn lemma_last_index_bound(s: Seq<char>, c: char)
    ensures
        -1 <= last_index(s, c) < s.len(),
    decreases s.len(),
{
    if s.len() > 0 && s.last() != c {
        lemma_last_index_bound(s.drop_last(), c);
    }
}

/// A text without the spaces at its end is a part of the text from its
/// start, ends in no space, and is followed by a space or by nothing.
pub proof fn lemma_without_trailing_spaces(s: Seq<char>)
    ensures
        ({
            let n = without_trailing_spaces(s).len() as int;
            &&& n <= s.len()
            &&& without_trailing_spaces(s) == s.take(n)
            &&& (n == 0 || s[n - 1] != ' ')
            &&& (n == s.len() || s[n] == ' ')
        }),
    decreases s.len(),
{
    if s.len() > 0 && s.last() == ' ' {
        let front = s.drop_last();
        lemma_without_trailing_spaces(front);
        let n = without_trailing_spaces(front).len() as int;
        assert(front.take(n) =~= s.take(n));
        if n < front.len() {
            assert(front[n] == s[n]);
        }
    } else {
        assert(s.take(s.len() as int) =~= s);
    }
}

/// The last index of a character holds that character.
pub proof fn lemma_last_index_holds(s: Seq<char>, c: char)
    ensures
        last_index(s, c) >= 0 ==> last_index(s, c) < s.len() && s[last_index(s, c)] == c,
    decreases s.len(),
{
    if s.len() > 0 && s.last() != c {
        lemma_last_index_holds(s.drop_last(), c);
    }
}

/// A truncated text fits into `max` characters; and it is the text itself,
/// or ends in an ellipsis, or is empty where `max` is zero.
pub proof fn lemma_truncated_fits(text: Seq<char>, max: nat)
    ensures
        truncated(text, max).len() <= max,
        text.len() <= max ==> truncated(text, max) == text,
        text.len() > max && max > 0 ==> truncated(text, max).last() == '…',
{
    if text.len() > max && max > 0 {
        let head = text.take(max - 1);
        lemma_last_index_bound(head, ' ');
        lemma_without_trailing_spaces_len(text.take(word_end(text, max - 1)));
    }
}

/// No word is cut in two. What stays of a text that is too long, before the
/// ellipsis, is a part of the text from its start that ends in no space and
/// is followed in the text by a space: it is made of whole words, or empty.
pub proof fn lemma_truncated_at_word_boundary(text: Seq<char>, max: nat)
    requires
        text.len() > max,
        max > 0,
    ensures
        ({
            let n = truncated(text, max).len() - 1;
            &&& 0 <= n < max
            &&& truncated(text, max) == text.take(n).push('…')
            &&& (n == 0 || text[n - 1] != ' ')
            &&& (n == 0 || text[n] == ' ')
        }),
{
    let room = max - 1;
    let head = text.take(room);
    let m = word_end(text, room);
    lemma_last_index_bound(head, ' ');
    lemma_last_index_holds(head, ' ');
    let kept = text.take(m);
    lemma_without_trailing_spaces(kept);
    let n = without_trailing_spaces(kept).len() as int;
    assert(kept.take(n) =~= text.take(n));
    if n > 0 {
        assert(kept[n - 1] == text[n - 1]);
        if n < m {
            assert(kept[n] == text[n]);
        } else if m < room || text[room] != ' ' {
            assert(head[m] == text[m]);
        }
    }
}

/// Truncate a text at a word boundary to at most `max_len` characters.
pub fn truncate_at_word_boundary(text: &str, max_len: usize) -> (out: String)
    ensures
        out@ == truncated(text@, max_len as nat),
{
    let chars = chars_of(text);
    if chars.len() <= max_len {
        return String::from_str(text);
    }
    if max_len == 0 {
        return String::new();
    }
    let room: usize = max_len - 1;
    let ghost head = chars@.take(room as int);
    let mut end: usize = room;
    if chars[room] != ' ' {
        let mut i: usize = room;
        let mut found = false;
        assert(head.take(room as int) =~= head);
        while i > 0 && !found
            invariant
                i <= room < chars.len(),
                head == chars@.take(room as int),
                !found ==> last_index(head, ' ') == last_index(head.take(i as int), ' '),
                found ==> last_index(head, ' ') == i,
            decreases i + if found { 0int } else { 1int },
        {
            assert(head.take(i as int).drop_last() =~= head.take(i - 1));
            if chars[i - 1] == ' ' {
                found = true;
            }
            i -= 1;
        }
        proof {
            if !found {
                assert(head.take(0) =~= Seq::<char>::empty());
            }
        }
        end = i;
    }
    assert(end == word_end(chars@, room as int));
    let ghost kept = chars@.take(end as int);
    while end > 0 && chars[end - 1] == ' '
        invariant
            end <= chars.len(),
            without_trailing_spaces(chars@.take(end as int)) == without_trailing_spaces(kept),
        decreases end,
    {
        assert(chars@.take(end as int).drop_last() =~= chars@.take(end - 1));
        end -= 1;
    }
    let mut out = String::new();
    let mut k: usize = 0;
    assert(out@ =~= chars@.take(0));
    while k < end
        invariant
            k <= end <= chars.len(),
            out@ == chars@.take(k as int),
        decreases end - k,
    {
        out.push(chars[k]);
        k += 1;
        assert(out@ =~= chars@.take(k as int));
    }
    out.push('…');
    out
}

/// The length of the longest text that both `a` and `b` start with.
pub open spec fn common_len(a: Seq<char>, b: Seq<char>) -> nat
    decreases a.len(),
{
    if a.len() == 0 || b.len() == 0 || a[0] != b[0] {
        0
    } else {
        1 + common_len(a.skip(1), b.skip(1))
    }
}

/// `common_len` is the one index up to which the two texts agree and at
/// which they differ or one of them ends.
pub proof fn lemma_common_len(a: Seq<char>, b: Seq<char>, n: int)
    requires
        0 <= n <= a.len(),
        n <= b.len(),
        forall|k: int| 0 <= k < n ==> a[k] == b[k],
        n == a.len() || n == b.len() || a[n] != b[n],
    ensures
        common_len(a, b) == n,
    decreases n,
{
    if n > 0 {
        assert forall|k: int| 0 <= k < n - 1 implies a.skip(1)[k] == b.skip(1)[k] by {
            assert(a.skip(1)[k] == a[k + 1]);
            assert(b.skip(1)[k] == b[k + 1]);
        }
        lemma_common_len(a.skip(1), b.skip(1), n - 1);
    }
}

/// The number of characters that both texts start with.
pub fn common_prefix_len(a: &Vec<char>, b: &Vec<char>) -> (n: usize)
    ensures
        n == common_len(a@, b@),
        n <= a.len(),
        n <= b.len(),
{
    let mut n: usize = 0;
    while n < a.len() && n < b.len() && a[n] == b[n]
        invariant
            n <= a.len(),
            n <= b.len(),
            forall|k: int| 0 <= k < n ==> a@[k] == b@[k],
        decreases a.len() - n,
    {
        n += 1;
    }
    proof {
        lemma_common_len(a@, b@, n as int);
    }
    n
}

/// The directory part of a path: what stands before its last slash, or
/// nothing if it has none.
pub open spec fn directory_of(path: Seq<char>) -> Seq<char> {
    let cut = last_index(path, '/');
    if cut >= 0 {
        path.take(cut)
    } else {
        Seq::empty()
    }
}

/// The directory part of a path, as a text.
pub fn directory_part(path: &Vec<char>) -> (out: String)
    ensures
        out@ == directory_of(path@),
{
    let mut end: usize = path.len();
    let mut found = false;
    assert(path@.take(end as int) =~= path@);
    while end > 0 && !found
        invariant
            end <= path.len(),
            !found ==> last_index(path@, '/') == last_index(path@.take(end as int), '/'),
            found ==> last_index(path@, '/') == end,
        decreases end + if found { 0int } else { 1int },
    {
        assert(path@.take(end as int).drop_last() =~= path@.take(end - 1));
        end -= 1;
        if path[end] == '/' {
            found = true;
        }
    }
    let mut out = String::new();
    if !found {
        assert(path@.take(0) =~= Seq::<char>::empty());
        return out;
    }
    let mut k: usize = 0;
    assert(out@ =~= path@.take(0));
    while k < end
        invariant
            k <= end <= path.len(),
            out@ == path@.take(k as int),
        decreases end - k,
    {
        out.push(path[k]);
        k += 1;
        assert(out@ =~= path@.take(k as int));
    }
    out
}

/// Ten to the power `k`.
pub open spec fn pow10(k: nat) -> nat
    decreases k,
{
    if k == 0 {
        1
    } else {
        10 * pow10((k - 1) as nat)
    }
}

/// A decimal number below ten to the `k` has at most `k` digits.
pub proof fn lemma_decimal_digits(n: nat, k: nat)
    requires
        k >= 1,
        n < pow10(k),
    ensures
        decimal(n).len() <= k,
    decreases k,
{
    if n >= 10 {
        assert(pow10(k) == 10 * pow10((k - 1) as nat));
        if k == 1 {
            assert(pow10(0) == 1);
        } else {
            lemma_decimal_digits(n / 10, (k - 1) as nat);
        }
    }
}

/// A number of the machine has at most twenty digits.
pub proof fn lemma_decimal_bound(n: usize)
    ensures
        1 <= decimal(n as nat).len() <= 20,
{
    lemma_decimal_len(n as nat);
    assert(pow10(20) == 100000000000000000000) by {
        reveal_with_fuel(pow10, 21);
    }
    lemma_decimal_digits(n as nat, 20);
}

/// A path as it shows in the list: `.` for the common prefix itself, the
/// rest behind `./` for a path below it, and any other path whole.
pub open spec fn shortened(path: Seq<char>, prefix: Seq<char>) -> Seq<char> {
    if path == prefix {
        seq!['.']
    } else if prefix.len() > 0 && path.len() > prefix.len() && path.take(prefix.len() as int)
        == prefix && path[prefix.len() as int] == '/' {
        seq!['.', '/'] + path.skip(prefix.len() as int + 1)
    } else {
        path
    }
}

/// Shorten a worktree's path by the prefix that all paths share.
pub fn shorten_path(path: &str, prefix: &str) -> (out: String)
    ensures
        out@ == shortened(path@, prefix@),
{
    let p = chars_of(path);
    let q = chars_of(prefix);
    if q.len() > p.len() || !occurs_at(&p, &q, 0) {
        assert(path@ != prefix@) by {
            if path@ == prefix@ {
                assert(p@.subrange(0, q.len() as int) =~= q@);
            }
        }
        assert(q.len() <= p.len() ==> p@.take(q.len() as int) =~= p@.subrange(0, q.len() as int));
        return String::from_str(path);
    }
    assert(p@.take(q.len() as int) =~= p@.subrange(0, q.len() as int));
    if p.len() == q.len() {
        assert(p@ =~= p@.take(q.len() as int));
        let mut out = String::new();
        out.push('.');
        assert(out@ =~= seq!['.']);
        return out;
    }
    if q.len() == 0 || p[q.len()] != '/' {
        return String::from_str(path);
    }
    let mut out = String::new();
    out.push('.');
    out.push('/');
    let mut k: usize = q.len() + 1;
    assert(out@ =~= seq!['.', '/'] + p@.subrange(q.len() + 1, k as int));
    while k < p.len()
        invariant
            q.len() < k <= p.len(),
            out@ == seq!['.', '/'] + p@.subrange(q.len() + 1, k as int),
        decreases p.len() - k,
    {
        out.push(p[k]);
        k += 1;
        assert(out@ =~= seq!['.', '/'] + p@.subrange(q.len() + 1, k as int));
    }
    assert(p@.subrange(q.len() + 1, p.len() as int) =~= p@.skip(q.len() + 1));
    out
}

} // verus!
