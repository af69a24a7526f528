//! Text primitives: decimal numbers, trimming, truncation, splitting and the
//! lexicographic order of strings.

use vstd::prelude::*;
use vstd::string::*;

verus! {

/// `String::push` appends the given character to the end of the string.
pub assume_specification[ String::push ](s: &mut String, c: char)
    ensures
        final(s)@ == old(s)@.push(c),
;

/// The characters with the Unicode `White_Space` property.
pub open spec fn is_white(c: char) -> bool {
    let u = c as u32;
    ||| 0x09 <= u <= 0x0d
    ||| u == 0x20
    ||| u == 0x85
    ||| u == 0xa0
    ||| u == 0x1680
    ||| 0x2000 <= u <= 0x200a
    ||| u == 0x2028
    ||| u == 0x2029
    ||| u == 0x202f
    ||| u == 0x205f
    ||| u == 0x3000
}

/// `char::is_whitespace` tells whether a character has the `White_Space`
/// property, which the Unicode Character Database gives to the characters that
/// [`is_white`] lists.
pub assume_specification[ char::is_whitespace ](c: char) -> (r: bool)
    ensures
        r == is_white(c),
;

/// What Rust's `Debug` formatting makes of a string: the text in double quotes,
/// with the characters escaped that need it.
pub uninterp spec fn quoted(s: Seq<char>) -> Seq<char>;

/// `format!("{:?}", ..)` of a string slice, whose result is named [`quoted`].
#[verifier::external_body]
pub(crate) fn quote(s: &str) -> (r: String)
    ensures
        r@ == quoted(s@),
{
    format!("{:?}", s)
}

/// Whether two strings hold the same characters.
pub fn same(a: &str, b: &str) -> (r: bool)
    ensures
        r == (a@ == b@),
{
    a.as_bytes().len() == b.as_bytes().len() && a.to_owned() == b.to_owned()
}

// ---------------------------------------------------------------------------
// Decimal numbers
// ---------------------------------------------------------------------------
/// The character of the decimal digit `d`.
pub open spec fn digit(d: nat) -> char {
    (0x30 + d) as char
}

/// `n` in decimal, without leading zeros.
pub open spec fn decimal(n: nat) -> Seq<char>
    decreases n,
{
    if n < 10 {
        seq![digit(n)]
    } else {
        decimal(n / 10).push(digit(n % 10))
    }
}

/// Writes `n` in decimal.
pub fn number(n: usize) -> (r: String)
    ensures
        r@ == decimal(n as nat),
    decreases n,
{
    let mut r = if n < 10 {
        String::new()
    } else {
        number(n / 10)
    };
    let d: u8 = (n % 10) as u8;
    r.push((0x30 + d) as char);
    assert(n < 10 ==> r@ == seq![digit(n as nat)]);
    r
}

// ---------------------------------------------------------------------------
// Trimming and truncation
// ---------------------------------------------------------------------------
/// `s` without its leading white space.
pub open spec fn trimmed_start(s: Seq<char>) -> Seq<char>
    decreases s.len(),
{
    if s.len() > 0 && is_white(s[0]) {
        trimmed_start(s.drop_first())
    } else {
        s
    }
}

/// `s` without its trailing white space.
pub open spec fn trimmed_end(s: Seq<char>) -> Seq<char>
    decreases s.len(),
{
    if s.len() > 0 && is_white(s.last()) {
        trimmed_end(s.drop_last())
    } else {
        s
    }
}

/// `s` without leading and trailing white space.
pub open spec fn trimmed(s: Seq<char>) -> Seq<char> {
    trimmed_end(trimmed_start(s))
}

/// The characters of a string, in order.
pub fn chars_of(s: &str) -> (r: Vec<char>)
    ensures
        r@ == s@,
{
    let mut r: Vec<char> = Vec::new();
    for c in it: s.chars()
        invariant
            it.seq() == s@,
            r@ == s@.take(it.index()),
    {
        assert(s@.take(it.index() + 1) == s@.take(it.index()).push(c));
        r.push(c);
    }
    assert(s@.take(s@.len() as int) == s@);
    r
}

/// The part of `s` between its leading and its trailing white space.
pub fn trim(s: &str) -> (r: &str)
    ensures
        r@ == trimmed(s@),
{
    let chars = chars_of(s);
    let mut from: usize = 0;
    assert(s@.skip(0) == s@);
    while from < chars.len() && chars[from].is_whitespace()
        invariant
            chars@ == s@,
            from <= chars.len(),
            trimmed_start(s@) == trimmed_start(s@.skip(from as int)),
        decreases chars.len() - from,
    {
        assert(s@.skip(from as int).drop_first() == s@.skip(from + 1));
        from += 1;
    }
    let ghost rest = s@.skip(from as int);
    assert(trimmed_start(s@) == rest);
    let mut to: usize = chars.len();
    assert(s@.subrange(from as int, to as int) == rest);
    while from < to && chars[to - 1].is_whitespace()
        invariant
            chars@ == s@,
            from <= to <= chars.len(),
            trimmed(s@) == trimmed_end(s@.subrange(from as int, to as int)),
        decreases to,
    {
        assert(s@.subrange(from as int, to as int).drop_last() == s@.subrange(
            from as int,
            to - 1,
        ));
        to -= 1;
    }
    s.substring_char(from, to)
}

/// Whether `s` holds nothing but white space.
pub fn is_blank(s: &str) -> (r: bool)
    ensures
        r == (trimmed(s@).len() == 0),
{
    trim(s).is_empty()
}

/// A trimmed line cut to `max_len`: it stays whole when its UTF-8 form has at
/// most `max_len` bytes, otherwise its first `max_len - 3` characters stay and
/// three dots follow.
pub open spec fn truncated(line: Seq<char>, max_len: nat) -> Seq<char> {
    let t = trimmed(line);
    if vstd::utf8::encode_utf8(t).len() <= max_len {
        t
    } else {
        t.take(if t.len() <= max_len - 3 { t.len() as int } else { max_len - 3 }) + "..."@
    }
}

/// Trims a line and cuts it to `max_len`.
pub fn truncate_line(line: &str, max_len: usize) -> (r: String)
    requires
        max_len >= 3 || vstd::utf8::encode_utf8(trimmed(line@)).len() <= max_len,
    ensures
        r@ == truncated(line@, max_len as nat),
{
    let trimmed = trim(line);
    if trimmed.as_bytes().len() <= max_len {
        return trimmed.to_owned();
    }
    let count = trimmed.unicode_len();
    let keep: usize = if count <= max_len - 3 {
        count
    } else {
        max_len - 3
    };
    let mut r = trimmed.substring_char(0, keep).to_owned();
    r.append("...");
    r
}

/// The byte length of a text in UTF-8 is at least its number of characters.
pub proof fn utf8_is_no_shorter(s: Seq<char>)
    ensures
        vstd::utf8::encode_utf8(s).len() >= s.len(),
    decreases s.len(),
{
    if s.len() > 0 {
        utf8_is_no_shorter(s.drop_first());
    }
}

/// A truncated line has at most `max_len` characters, and apart from the dots
/// it is a prefix of the trimmed line.
pub proof fn truncation_bounds_a_line(line: Seq<char>, max_len: nat)
    requires
        max_len >= 3,
    ensures
        truncated(line, max_len).len() <= max_len,
        truncated(line, max_len) == trimmed(line) || exists|n: int|
            0 <= n <= trimmed(line).len() && truncated(line, max_len) == #[trigger] trimmed(
                line,
            ).take(n) + "..."@,
{
    let t = trimmed(line);
    utf8_is_no_shorter(t);
    reveal_strlit("...");
    if vstd::utf8::encode_utf8(t).len() > max_len {
        let n = if t.len() <= max_len - 3 { t.len() as int } else { max_len - 3 };
        assert(truncated(line, max_len) == t.take(n) + "..."@);
    }
}

proof fn trimming_leaves_a_rest(s: Seq<char>)
    ensures
        trimmed_start(s).len() > 0 ==> !is_white(trimmed_start(s)[0]),
        trimmed_end(s).len() > 0 ==> !is_white(trimmed_end(s).last()) && trimmed_end(s)[0] == s[0],
    decreases s.len(),
{
    if s.len() > 0 {
        trimming_leaves_a_rest(s.drop_first());
        trimming_leaves_a_rest(s.drop_last());
    }
}

/// A trimmed text neither begins nor ends with white space, so that trimming it
/// again changes nothing.
pub proof fn trimming_again_changes_nothing(s: Seq<char>)
    ensures
        trimmed(s).len() > 0 ==> !is_white(trimmed(s)[0]) && !is_white(trimmed(s).last()),
        trimmed(trimmed(s)) == trimmed(s),
{
    trimming_leaves_a_rest(s);
    trimming_leaves_a_rest(trimmed_start(s));
}

/// To cut a line again changes nothing, unless it was cut though it has fewer
/// characters than would have stayed.
pub proof fn truncating_again_changes_nothing(line: Seq<char>, max_len: nat)
    requires
        max_len >= 3,
        vstd::utf8::encode_utf8(trimmed(line)).len() <= max_len || trimmed(line).len() >= max_len
            - 3,
    ensures
        truncated(truncated(line, max_len), max_len) == truncated(line, max_len),
{
    let t = trimmed(line);
    trimming_again_changes_nothing(line);
    if vstd::utf8::encode_utf8(t).len() > max_len {
        reveal_strlit("...");
        let r = truncated(line, max_len);
        assert(r == t.take(max_len - 3) + "..."@);
        assert(r.last() == '.');
        if max_len > 3 {
            assert(r[0] == t[0]);
        }
        assert(trimmed_start(r) == r);
        assert(trimmed(r) == r);
        assert(r.take(max_len - 3) == t.take(max_len - 3));
    }
}

// ---------------------------------------------------------------------------
// Splitting
// ---------------------------------------------------------------------------
/// The pieces of `s` between the occurrences of `sep`: one more than there are
/// occurrences.
pub open spec fn pieces(s: Seq<char>, sep: char) -> Seq<Seq<char>>
    decreases s.len(),
{
    if s.len() == 0 {
        seq![Seq::empty()]
    } else {
        let before = pieces(s.drop_last(), sep);
        if s.last() == sep {
            before.push(Seq::empty())
        } else {
            before.drop_last().push(before.last().push(s.last()))
        }
    }
}

/// Splits `s` at every `sep`.
pub fn split(s: &str, sep: char) -> (r: Vec<String>)
    ensures
        r.deep_view() == pieces(s@, sep),
        r.len() >= 1,
{
    let mut done: Vec<String> = Vec::new();
    let mut current = String::new();
    assert(done.deep_view().push(current@) == pieces(s@.take(0), sep));
    for c in it: s.chars()
        invariant
            it.seq() == s@,
            done.deep_view().push(current@) == pieces(s@.take(it.index()), sep),
    {
        let ghost before = done.deep_view().push(current@);
        assert(s@.take(it.index() + 1).drop_last() == s@.take(it.index()));
        assert(before.drop_last() == done.deep_view());
        if c == sep {
            done.push(current);
            current = String::new();
            assert(done.deep_view() == before);
        } else {
            current.push(c);
        }
        assert(done.deep_view().push(current@) == pieces(s@.take(it.index() + 1), sep));
    }
    assert(s@.take(s@.len() as int) == s@);
    let ghost before = done.deep_view().push(current@);
    done.push(current);
    assert(done.deep_view() == before);
    done
}

/// The trimmed pieces that hold more than white space, in order.
pub open spec fn filled(items: Seq<Seq<char>>) -> Seq<Seq<char>>
    decreases items.len(),
{
    if items.len() == 0 {
        Seq::empty()
    } else {
        let before = filled(items.drop_last());
        let last = trimmed(items.last());
        if last.len() == 0 {
            before
        } else {
            before.push(last)
        }
    }
}

/// The items of a comma-separated list, trimmed, without the empty ones.
pub fn comma_separated(s: &str) -> (r: Vec<String>)
    ensures
        r.deep_view() == filled(pieces(s@, ',')),
{
    let parts = split(s, ',');
    let mut r: Vec<String> = Vec::new();
    assert(r.deep_view() == filled(parts.deep_view().take(0)));
    for i in 0..parts.len()
        invariant
            parts.deep_view() == pieces(s@, ','),
            r.deep_view() == filled(parts.deep_view().take(i as int)),
    {
        let ghost before = r.deep_view();
        assert(parts.deep_view().take(i + 1).drop_last() == parts.deep_view().take(i as int));
        let part = trim(&parts[i]);
        if !part.is_empty() {
            r.push(part.to_owned());
            assert(r.deep_view() == before.push(part@));
        }
    }
    assert(parts.deep_view().take(parts.len() as int) == parts.deep_view());
    r
}

/// `line` without a carriage return at its end.
pub open spec fn without_return(line: Seq<char>) -> Seq<char> {
    if line.len() > 0 && line.last() == '\r' {
        line.drop_last()
    } else {
        line
    }
}

/// The lines of a text: they end at a line feed, or at a carriage return with a
/// line feed behind it, and the ending of the last line is optional.
pub open spec fn lines_of(s: Seq<char>) -> Seq<Seq<char>> {
    let parts = pieces(s, '\n');
    let ended = parts.drop_last().map_values(|p: Seq<char>| without_return(p));
    if parts.last().len() == 0 {
        ended
    } else {
        ended.push(parts.last())
    }
}

/// The lines that hold more than white space, as they stand, in order.
pub open spec fn nonblank(lines: Seq<Seq<char>>) -> Seq<Seq<char>>
    decreases lines.len(),
{
    if lines.len() == 0 {
        Seq::empty()
    } else {
        let before = nonblank(lines.drop_last());
        if trimmed(lines.last()).len() == 0 {
            before
        } else {
            before.push(lines.last())
        }
    }
}

/// The lines of `s` that hold more than white space.
pub fn nonblank_lines(s: &str) -> (r: Vec<String>)
    ensures
        r.deep_view() == nonblank(lines_of(s@)),
{
    let parts = split(s, '\n');
    let last = parts.len() - 1;
    let ghost all = parts.deep_view();
    let ghost ended = all.drop_last().map_values(|p: Seq<char>| without_return(p));
    let mut r: Vec<String> = Vec::new();
    assert(r.deep_view() == nonblank(ended.take(0)));
    for i in 0..last
        invariant
            last == parts.len() - 1,
            all == parts.deep_view(),
            ended == all.drop_last().map_values(|p: Seq<char>| without_return(p)),
            r.deep_view() == nonblank(ended.take(i as int)),
    {
        let ghost before = r.deep_view();
        assert(ended.take(i + 1).drop_last() == ended.take(i as int));
        let part = parts[i].as_str();
        let count = part.unicode_len();
        let line: &str = if count > 0 && part.get_char(count - 1) == '\r' {
            part.substring_char(0, count - 1)
        } else {
            part
        };
        assert(line@ == without_return(all[i as int]));
        if !is_blank(line) {
            r.push(line.to_owned());
            assert(r.deep_view() == before.push(line@));
        }
    }
    assert(ended.take(last as int) == ended);
    let tail = parts[last].as_str();
    let ghost before = r.deep_view();
    assert(ended.push(tail@).drop_last() == ended);
    if !is_blank(tail) {
        r.push(tail.to_owned());
        assert(r.deep_view() == before.push(tail@));
    }
    r
}

// ---------------------------------------------------------------------------
// Order
// ---------------------------------------------------------------------------
/// Whether `a` and `b` agree before position `k` and `a` is the smaller one
/// there: it has ended, or holds the smaller character.
pub open spec fn smaller_at(a: Seq<char>, b: Seq<char>, k: int) -> bool {
    &&& 0 <= k <= a.len()
    &&& k < b.len()
    &&& forall|i: int| 0 <= i < k ==> a[i] == b[i]
    &&& k == a.len() || a[k] < b[k]
}

/// The lexicographic order of texts by code points.
pub open spec fn text_less(a: Seq<char>, b: Seq<char>) -> bool {
    exists|k: int| #[trigger] smaller_at(a, b, k)
}

/// Two texts cannot each be smaller than the other.
pub proof fn text_less_is_asymmetric(a: Seq<char>, b: Seq<char>)
    requires
        text_less(a, b),
    ensures
        !text_less(b, a),
        a != b,
{
    let k = choose|k: int| smaller_at(a, b, k);
    if a == b {
        assert(false);
    }
    if text_less(b, a) {
        let j = choose|j: int| smaller_at(b, a, j);
        if j < k {
            assert(a[j] == b[j]);
        } else if k < j {
            assert(a[k] == b[k]);
        }
    }
}

/// The order of texts is transitive.
pub proof fn text_less_is_transitive(a: Seq<char>, b: Seq<char>, c: Seq<char>)
    requires
        text_less(a, b),
        text_less(b, c),
    ensures
        text_less(a, c),
{
    let k = choose|k: int| smaller_at(a, b, k);
    let j = choose|j: int| smaller_at(b, c, j);
    assert(smaller_at(a, c, if k < j { k } else { j }));
}

/// Whether `a` comes before `b` in the lexicographic order.
pub fn less(a: &str, b: &str) -> (r: bool)
    ensures
        r == text_less(a@, b@),
        !r && a@ != b@ ==> text_less(b@, a@),
{
    let x = chars_of(a);
    let y = chars_of(b);
    let mut i: usize = 0;
    while i < x.len() && i < y.len() && x[i] == y[i]
        invariant
            x@ == a@,
            y@ == b@,
            i <= x.len(),
            i <= y.len(),
            forall|j: int| 0 <= j < i ==> x@[j] == y@[j],
        decreases x.len() - i,
    {
        i += 1;
    }
    let r = i < y.len() && (i == x.len() || x[i] < y[i]);
    proof {
        if r {
            assert(smaller_at(a@, b@, i as int));
        } else {
            if i == x.len() && i == y.len() {
                assert(a@ == b@);
            } else {
                assert(smaller_at(b@, a@, i as int));
                text_less_is_asymmetric(b@, a@);
            }
            if a@ == b@ && text_less(a@, b@) {
                text_less_is_asymmetric(a@, b@);
            }
        }
    }
    r
}

// ---------------------------------------------------------------------------
// What the parts of a text are for
// ---------------------------------------------------------------------------
/// The number that a row of decimal digits stands for.
pub open spec fn reading(digits: Seq<char>) -> int
    decreases digits.len(),
{
    if digits.len() == 0 {
        0
    } else {
        reading(digits.drop_last()) * 10 + (digits.last() as int - '0' as int)
    }
}

/// A number in decimal reads back as that number. It holds digits alone, and no
/// zero in front.
pub proof fn a_number_reads_back(n: nat)
    ensures
        reading(decimal(n)) == n,
        decimal(n).len() > 0,
        forall|i: int| 0 <= i < decimal(n).len() ==> '0' <= #[trigger] decimal(n)[i] <= '9',
        decimal(n)[0] == '0' ==> n == 0,
    decreases n,
{
    let s = decimal(n);
    reveal_with_fuel(reading, 2);
    if n < 10 {
        assert(s.drop_last() == Seq::<char>::empty());
    } else {
        a_number_reads_back(n / 10);
        assert(s.drop_last() == decimal(n / 10));
        assert(s[0] == decimal(n / 10)[0]);
    }
}

proof fn what_is_taken_off_in_front(s: Seq<char>) -> (i: int)
    ensures
        0 <= i <= s.len(),
        trimmed_start(s) == s.skip(i),
        forall|k: int| 0 <= k < i ==> is_white(#[trigger] s[k]),
    decreases s.len(),
{
    if s.len() > 0 && is_white(s[0]) {
        let i = what_is_taken_off_in_front(s.drop_first());
        assert(s.drop_first().skip(i) == s.skip(i + 1));
        assert forall|k: int| 0 <= k < i + 1 implies is_white(#[trigger] s[k]) by {
            if k > 0 {
                assert(s.drop_first()[k - 1] == s[k]);
            }
        }
        i + 1
    } else {
        assert(s.skip(0) == s);
        0
    }
}

proof fn what_is_taken_off_at_the_end(s: Seq<char>) -> (j: int)
    ensures
        0 <= j <= s.len(),
        trimmed_end(s) == s.take(j),
        forall|k: int| j <= k < s.len() ==> is_white(#[trigger] s[k]),
    decreases s.len(),
{
    if s.len() > 0 && is_white(s.last()) {
        let j = what_is_taken_off_at_the_end(s.drop_last());
        assert(s.drop_last().take(j) == s.take(j));
        assert forall|k: int| j <= k < s.len() implies is_white(#[trigger] s[k]) by {
            if k < s.len() - 1 {
                assert(s.drop_last()[k] == s[k]);
            }
        }
        j
    } else {
        assert(s.take(s.len() as int) == s);
        s.len() as int
    }
}

/// Trimming takes white space off at both ends, and all of it, and nothing else:
/// what is left is one stretch of the text, with white space before and behind
/// it, that neither begins nor ends with white space.
pub proof fn trimming_takes_white_space_off(s: Seq<char>)
    ensures
        exists|i: int, j: int|
            0 <= i <= j <= s.len() && trimmed(s) == #[trigger] s.subrange(i, j) && (forall|k: int|
                0 <= k < i || j <= k < s.len() ==> is_white(#[trigger] s[k])),
        trimmed(s).len() > 0 ==> !is_white(trimmed(s)[0]) && !is_white(trimmed(s).last()),
{
    trimming_again_changes_nothing(s);
    let i = what_is_taken_off_in_front(s);
    let rest = s.skip(i);
    let n = what_is_taken_off_at_the_end(rest);
    let j = i + n;
    assert(rest.take(n) == s.subrange(i, j));
    assert forall|k: int| 0 <= k < i || j <= k < s.len() implies is_white(#[trigger] s[k]) by {
        if k >= j {
            assert(rest[k - i] == s[k]);
        }
    }
}

/// A line that fits stays whole. Of another one as many characters stay as leave
/// room for the three dots behind them, or all where there are fewer.
pub proof fn a_line_stays_whole_or_is_cut(line: Seq<char>, max_len: nat)
    requires
        max_len >= 3 || vstd::utf8::encode_utf8(trimmed(line)).len() <= max_len,
    ensures
        ({
            let whole = trimmed(line);
            let shown = truncated(line, max_len);
            let kept = shown.len() - 3;
            if vstd::utf8::encode_utf8(whole).len() <= max_len {
                shown == whole
            } else {
                &&& kept == max_len - 3 || kept == whole.len() && whole.len() < max_len - 3
                &&& kept <= whole.len()
                &&& shown.take(kept) == whole.take(kept)
                &&& forall|i: int| kept <= i < kept + 3 ==> #[trigger] shown[i] == '.'
            }
        }),
{
    reveal_strlit("...");
    let whole = trimmed(line);
    utf8_is_no_shorter(whole);
    let shown = truncated(line, max_len);
    if vstd::utf8::encode_utf8(whole).len() > max_len {
        assert(shown.take(shown.len() - 3) == whole.take(shown.len() - 3));
    }
}

/// Pieces with a separator between each two of them.
pub open spec fn put_together(parts: Seq<Seq<char>>, sep: char) -> Seq<char>
    decreases parts.len(),
{
    if parts.len() == 0 {
        Seq::empty()
    } else if parts.len() == 1 {
        parts[0]
    } else {
        put_together(parts.drop_last(), sep).push(sep) + parts.last()
    }
}

/// The pieces of a text hold no separator, and with one between each two of them
/// they are the text again.
pub proof fn pieces_make_the_text_again(s: Seq<char>, sep: char)
    ensures
        pieces(s, sep).len() > 0,
        put_together(pieces(s, sep), sep) == s,
        forall|i: int|
            0 <= i < pieces(s, sep).len() ==> !(#[trigger] pieces(s, sep)[i]).contains(sep),
    decreases s.len(),
{
    let parts = pieces(s, sep);
    if s.len() > 0 {
        let before = pieces(s.drop_last(), sep);
        pieces_make_the_text_again(s.drop_last(), sep);
        assert(s.drop_last().push(s.last()) == s);
        if s.last() == sep {
            assert(parts.drop_last() == before);
            assert(put_together(parts, sep) == s);
        } else {
            let last = before.last();
            assert(parts.drop_last() == before.drop_last());
            assert(put_together(parts, sep) == put_together(before, sep).push(s.last()));
            assert(!before[before.len() - 1].contains(sep));
            assert forall|i: int| 0 <= i < parts.len() implies !(#[trigger] parts[i]).contains(
                sep,
            ) by {
                if i == parts.len() - 1 {
                    if parts[i].contains(sep) {
                        let k = choose|k: int| 0 <= k < parts[i].len() && parts[i][k] == sep;
                        assert(last[k] == sep);
                    }
                } else {
                    assert(parts[i] == before[i]);
                }
            }
        }
    }
}

/// The pieces of a text with a separator in it are those of what stands before
/// it, and then those of what stands behind it.
pub proof fn a_separator_parts_the_pieces(a: Seq<char>, b: Seq<char>, sep: char)
    ensures
        pieces(a.push(sep) + b, sep) == pieces(a, sep) + pieces(b, sep),
    decreases b.len(),
{
    let s = a.push(sep) + b;
    pieces_make_the_text_again(a, sep);
    pieces_make_the_text_again(b, sep);
    if b.len() == 0 {
        assert(s == a.push(sep));
        assert(s.drop_last() == a);
        assert(pieces(s, sep) == pieces(a, sep) + pieces(b, sep));
    } else {
        let before = pieces(b.drop_last(), sep);
        pieces_make_the_text_again(b.drop_last(), sep);
        a_separator_parts_the_pieces(a, b.drop_last(), sep);
        assert(s.drop_last() == a.push(sep) + b.drop_last());
        assert(s.last() == b.last());
        assert((pieces(a, sep) + before).drop_last() == pieces(a, sep) + before.drop_last());
        assert(pieces(s, sep) == pieces(a, sep) + pieces(b, sep));
    }
}

/// A text without a separator is its only piece.
pub proof fn without_a_separator_there_is_one_piece(s: Seq<char>, sep: char)
    requires
        !s.contains(sep),
    ensures
        pieces(s, sep) == seq![s],
    decreases s.len(),
{
    if s.len() > 0 {
        assert(s.contains(s[s.len() - 1]));
        assert(!s.drop_last().contains(sep)) by {
            if s.drop_last().contains(sep) {
                let k = choose|k: int| 0 <= k < s.drop_last().len() && s.drop_last()[k] == sep;
                assert(s[k] == sep);
            }
        }
        without_a_separator_there_is_one_piece(s.drop_last(), sep);
        assert(s.drop_last().push(s.last()) == s);
        assert(pieces(s, sep) =~= seq![s]);
    } else {
        assert(s == Seq::<char>::empty());
    }
}

/// A text is its first line, where there is a line feed, and then the lines of
/// what follows. A carriage return before the line feed belongs to the ending. A
/// last line without an ending counts where it holds something.
pub proof fn a_line_ends_at_a_line_feed(line: Seq<char>, rest: Seq<char>)
    requires
        !line.contains('\n'),
    ensures
        line.len() == 0 || line.last() != '\r' ==> lines_of(line.push('\n') + rest) == seq![line]
            + lines_of(rest),
        lines_of(line.push('\r').push('\n') + rest) == seq![line] + lines_of(rest),
        lines_of(line) == (if line.len() == 0 {
            Seq::empty()
        } else {
            seq![line]
        }),
{
    let returned = line.push('\r');
    assert(!returned.contains('\n')) by {
        if returned.contains('\n') {
            let k = choose|k: int| 0 <= k < returned.len() && returned[k] == '\n';
            assert(line[k] == '\n');
        }
    }
    assert(returned.drop_last() == line);
    without_a_separator_there_is_one_piece(line, '\n');
    without_a_separator_there_is_one_piece(returned, '\n');
    a_separator_parts_the_pieces(line, rest, '\n');
    a_separator_parts_the_pieces(returned, rest, '\n');
    pieces_make_the_text_again(rest, '\n');
    let f = |p: Seq<char>| without_return(p);
    let parts = pieces(rest, '\n');
    assert((seq![line] + parts).drop_last() == seq![line] + parts.drop_last());
    assert((seq![returned] + parts).drop_last() == seq![returned] + parts.drop_last());
    assert((seq![line] + parts.drop_last()).map_values(f) == seq![without_return(line)]
        + parts.drop_last().map_values(f));
    assert((seq![returned] + parts.drop_last()).map_values(f) == seq![without_return(returned)]
        + parts.drop_last().map_values(f));
    let ended = parts.drop_last().map_values(f);
    assert((seq![line] + ended).push(parts.last()) == seq![line] + ended.push(parts.last()));
    assert(seq![line].drop_last().map_values(f) == Seq::<Seq<char>>::empty());
    assert(Seq::<Seq<char>>::empty().push(line) == seq![line]);
}

/// The trimmed items of two lists are those of the one and then those of the
/// other, and of one item what is left of it, if anything is.
pub proof fn filled_items_are_taken_one_by_one(
    a: Seq<Seq<char>>,
    b: Seq<Seq<char>>,
    item: Seq<char>,
)
    ensures
        filled(a + b) == filled(a) + filled(b),
        trimmed(item).len() > 0 ==> filled(seq![item]) == seq![trimmed(item)],
        trimmed(item).len() == 0 ==> filled(seq![item]) == Seq::<Seq<char>>::empty(),
    decreases b.len(),
{
    reveal_with_fuel(filled, 2);
    assert(seq![item].drop_last() == Seq::<Seq<char>>::empty());
    assert(Seq::<Seq<char>>::empty().push(trimmed(item)) == seq![trimmed(item)]);
    if b.len() == 0 {
        assert(a + b == a);
        assert(filled(a) + filled(b) == filled(a));
    } else {
        filled_items_are_taken_one_by_one(a, b.drop_last(), item);
        assert((a + b).drop_last() == a + b.drop_last());
        assert(filled(a + b) == filled(a) + filled(b));
    }
}

/// The lines of two lists that are not blank are those of the one and then those
/// of the other, each as it stands.
pub proof fn nonblank_lines_are_taken_one_by_one(
    a: Seq<Seq<char>>,
    b: Seq<Seq<char>>,
    line: Seq<char>,
)
    ensures
        nonblank(a + b) == nonblank(a) + nonblank(b),
        trimmed(line).len() > 0 ==> nonblank(seq![line]) == seq![line],
        trimmed(line).len() == 0 ==> nonblank(seq![line]) == Seq::<Seq<char>>::empty(),
    decreases b.len(),
{
    reveal_with_fuel(nonblank, 2);
    assert(seq![line].drop_last() == Seq::<Seq<char>>::empty());
    assert(Seq::<Seq<char>>::empty().push(line) == seq![line]);
    if b.len() == 0 {
        assert(a + b == a);
        assert(nonblank(a) + nonblank(b) == nonblank(a));
    } else {
        nonblank_lines_are_taken_one_by_one(a, b.drop_last(), line);
        assert((a + b).drop_last() == a + b.drop_last());
        assert(nonblank(a + b) == nonblank(a) + nonblank(b));
    }
}

/// Texts are compared at the first character in which they differ; where one has
/// ended before, it is the smaller one. Of two different texts one is smaller.
pub proof fn texts_are_compared_where_they_differ(
    same: Seq<char>,
    x: char,
    y: char,
    a: Seq<char>,
    b: Seq<char>,
)
    ensures
        x < y ==> text_less(same.push(x) + a, same.push(y) + b),
        text_less(same, same.push(y) + b),
        a != b ==> text_less(a, b) || text_less(b, a),
{
    if x < y {
        let p = same.push(x) + a;
        let q = same.push(y) + b;
        assert(smaller_at(p, q, same.len() as int));
    }
    assert(smaller_at(same, same.push(y) + b, same.len() as int));
    if a != b {
        the_first_difference(a, b, 0);
    }
}

proof fn the_first_difference(a: Seq<char>, b: Seq<char>, k: int)
    requires
        a != b,
        0 <= k <= a.len(),
        k <= b.len(),
        forall|i: int| 0 <= i < k ==> a[i] == b[i],
    ensures
        text_less(a, b) || text_less(b, a),
    decreases a.len() - k,
{
    if k == a.len() && k == b.len() {
        assert(a =~= b);
    } else if k == a.len() {
        assert(smaller_at(a, b, k));
    } else if k == b.len() {
        assert(smaller_at(b, a, k));
    } else if a[k] < b[k] {
        assert(smaller_at(a, b, k));
    } else if b[k] < a[k] {
        assert(smaller_at(b, a, k));
    } else {
        the_first_difference(a, b, k + 1);
    }
}

} // verus!
