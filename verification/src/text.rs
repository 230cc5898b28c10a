//! Character sequences: the string operations the reports are built from.
//!
//! Every operation is stated over `Seq<char>`, the view of a string, and
//! implemented on `Vec<char>`.

use vstd::prelude::*;
use vstd::std_specs::iter::IteratorSpec;

verus! {

/// The characters of an optional string.
pub open spec fn text_view(o: Option<String>) -> Option<Seq<char>> {
    match o {
        Some(s) => Some(s@),
        None => None,
    }
}

/// The characters of each string.
pub open spec fn texts_view(v: Seq<String>) -> Seq<Seq<char>> {
    v.map_values(|s: String| s@)
}

/// The characters of `s`, in order.
pub fn chars_of(s: &str) -> (v: Vec<char>)
    ensures
        v@ == s@,
{
    let mut v: Vec<char> = Vec::new();
    let mut it = s.chars();
    let ghost all = it.remaining();
    loop
        invariant
            it.obeys_prophetic_iter_laws(),
            all == s@,
            v@ + it.remaining() == all,
            it.decrease() is Some,
        ensures
            v@ == s@,
        decreases it.decrease()->0,
    {
        match it.next() {
            Some(c) => {
                v.push(c);
            },
            None => {
                break ;
            },
        }
    }
    v
}

/// Whether two strings hold the same characters.
pub fn same_text(a: &str, b: &str) -> (r: bool)
    ensures
        r == (a@ == b@),
{
    a.to_owned() == b.to_owned()
}

/// `String::push`: the string grows by the one character at its end.
#[verifier::external_body]
fn push_char(s: &mut String, c: char)
    ensures
        final(s)@ == old(s)@.push(c),
{
    s.push(c);
}

/// The string made of the characters of `v`, in order.
pub fn text_of(v: &Vec<char>) -> (s: String)
    ensures
        s@ == v@,
{
    let mut s = String::new();
    let mut i: usize = 0;
    while i < v.len()
        invariant
            i <= v.len(),
            s@ == v@.take(i as int),
        decreases v.len() - i,
    {
        push_char(&mut s, v[i]);
        i += 1;
    }
    s
}

/// Appends the characters of `tail` to `out`.
pub fn push_all(out: &mut Vec<char>, tail: &Vec<char>)
    ensures
        final(out)@ == old(out)@ + tail@,
{
    let mut i: usize = 0;
    while i < tail.len()
        invariant
            i <= tail.len(),
            out@ == old(out)@ + tail@.take(i as int),
        decreases tail.len() - i,
    {
        out.push(tail[i]);
        i += 1;
    }
}

/// Appends the characters of the string `tail` to `out`.
pub fn push_str(out: &mut Vec<char>, tail: &str)
    ensures
        final(out)@ == old(out)@ + tail@,
{
    let chars = chars_of(tail);
    push_all(out, &chars);
}

/// Whether `s` begins with `prefix`.
pub fn starts_with(s: &Vec<char>, prefix: &Vec<char>) -> (b: bool)
    ensures
        b == prefix@.is_prefix_of(s@),
{
    if prefix.len() > s.len() {
        return false;
    }
    let mut i: usize = 0;
    while i < prefix.len()
        invariant
            i <= prefix.len() <= s.len(),
            forall|k: int| 0 <= k < i ==> s@[k] == prefix@[k],
        decreases prefix.len() - i,
    {
        if s[i] != prefix[i] {
            return false;
        }
        i += 1;
    }
    true
}

/// Whether `s` ends with `suffix`.
pub fn ends_with(s: &Vec<char>, suffix: &Vec<char>) -> (b: bool)
    ensures
        b == suffix@.is_suffix_of(s@),
{
    if suffix.len() > s.len() {
        return false;
    }
    let offset: usize = s.len() - suffix.len();
    let mut i: usize = 0;
    while i < suffix.len()
        invariant
            i <= suffix.len() <= s.len(),
            offset == s.len() - suffix.len(),
            forall|k: int| 0 <= k < i ==> s@[offset + k] == suffix@[k],
        decreases suffix.len() - i,
    {
        if s[offset + i] != suffix[i] {
            return false;
        }
        i += 1;
    }
    true
}

/// `s` without `prefix` at its start; `s` itself where it does not start with it.
pub open spec fn without_prefix(s: Seq<char>, prefix: Seq<char>) -> Seq<char> {
    if prefix.is_prefix_of(s) {
        s.skip(prefix.len() as int)
    } else {
        s
    }
}

/// Removes `prefix` from the start of `s`, where `s` starts with it.
pub fn strip_prefix(s: &Vec<char>, prefix: &Vec<char>) -> (r: Vec<char>)
    ensures
        r@ == without_prefix(s@, prefix@),
{
    let start: usize = if starts_with(s, prefix) {
        prefix.len()
    } else {
        0
    };
    let mut r: Vec<char> = Vec::new();
    let mut i: usize = start;
    while i < s.len()
        invariant
            start <= i <= s.len(),
            r@ == s@.subrange(start as int, i as int),
        decreases s.len() - i,
    {
        r.push(s[i]);
        i += 1;
    }
    r
}

/// `s` without any occurrence of `pattern`: read from the left, each stretch
/// that equals `pattern` is left out and reading goes on behind it. An empty
/// pattern takes nothing away.
pub open spec fn without_every(s: Seq<char>, pattern: Seq<char>) -> Seq<char>
    decreases s.len(),
{
    if pattern.len() == 0 || s.len() < pattern.len() {
        s
    } else if pattern.is_prefix_of(s) {
        without_every(s.skip(pattern.len() as int), pattern)
    } else {
        seq![s[0]] + without_every(s.skip(1), pattern)
    }
}

/// Whether `pattern` stands in `s` at the position `at`.
fn stands_at(s: &Vec<char>, at: usize, pattern: &Vec<char>) -> (b: bool)
    requires
        at <= s.len(),
    ensures
        b == pattern@.is_prefix_of(s@.skip(at as int)),
{
    if pattern.len() > s.len() - at {
        return false;
    }
    let mut i: usize = 0;
    while i < pattern.len()
        invariant
            at <= s.len(),
            i <= pattern.len() <= s.len() - at,
            forall|k: int| 0 <= k < i ==> s@[at + k] == pattern@[k],
        decreases pattern.len() - i,
    {
        if s[at + i] != pattern[i] {
            assert(s@.skip(at as int).subrange(0, pattern@.len() as int)[i as int] == s@[at + i]);
            return false;
        }
        i += 1;
    }
    assert(pattern@ =~= s@.skip(at as int).subrange(0, pattern@.len() as int));
    true
}

/// Removes every occurrence of `pattern` from `s`.
pub fn remove_every(s: &Vec<char>, pattern: &Vec<char>) -> (r: Vec<char>)
    ensures
        r@ == without_every(s@, pattern@),
{
    let mut r: Vec<char> = Vec::new();
    let mut i: usize = 0;
    proof {
        assert(s@.skip(0) =~= s@);
        assert(r@ + s@ =~= s@);
    }
    while i < s.len()
        invariant
            i <= s.len(),
            without_every(s@, pattern@) == r@ + without_every(s@.skip(i as int), pattern@),
        decreases s.len() - i,
    {
        let ghost rest = s@.skip(i as int);
        let ghost before = r@;
        if pattern.len() > 0 && stands_at(s, i, pattern) {
            proof {
                assert(rest.skip(pattern@.len() as int) =~= s@.skip(i + pattern@.len()));
            }
            i += pattern.len();
        } else {
            r.push(s[i]);
            proof {
                assert(rest.skip(1) =~= s@.skip(i + 1));
                assert(without_every(rest, pattern@) =~= seq![rest[0]] + without_every(
                    rest.skip(1),
                    pattern@,
                ));
                assert(r@ + without_every(rest.skip(1), pattern@) =~= before + (seq![rest[0]]
                    + without_every(rest.skip(1), pattern@)));
            }
            i += 1;
        }
    }
    proof {
        assert(r@ + Seq::<char>::empty() =~= r@);
    }
    r
}

/// `s` with every `from` turned into `to`.
pub open spec fn with_char_replaced(s: Seq<char>, from: char, to: char) -> Seq<char> {
    Seq::new(s.len(), |i: int| if s[i] == from { to } else { s[i] })
}

/// Replaces every `from` in `s` by `to`.
pub fn replace_char(s: &Vec<char>, from: char, to: char) -> (r: Vec<char>)
    ensures
        r@ == with_char_replaced(s@, from, to),
{
    let mut r: Vec<char> = Vec::new();
    let mut i: usize = 0;
    while i < s.len()
        invariant
            i <= s.len(),
            r@ == with_char_replaced(s@, from, to).take(i as int),
        decreases s.len() - i,
    {
        let c = s[i];
        r.push(if c == from { to } else { c });
        i += 1;
    }
    r
}

/// Where the last segment of `s` begins: just after the last `sep`, or 0
/// where `s` holds none.
pub open spec fn last_segment_start(s: Seq<char>, sep: char) -> int
    decreases s.len(),
{
    if s.len() == 0 {
        0
    } else if s.last() == sep {
        s.len() as int
    } else {
        last_segment_start(s.drop_last(), sep)
    }
}

/// What follows the last `sep` in `s`; all of `s` where it holds none.
pub open spec fn last_segment(s: Seq<char>, sep: char) -> Seq<char> {
    s.skip(last_segment_start(s, sep))
}

/// The last segment is the longest end of `s` that holds no separator: it is
/// an end of `s`, holds no `sep`, and is all of `s` or follows a `sep`.
pub proof fn law_last_segment(s: Seq<char>, sep: char)
    ensures
        last_segment(s, sep).is_suffix_of(s),
        !last_segment(s, sep).contains(sep),
        last_segment(s, sep).len() < s.len() ==> s[s.len() - last_segment(s, sep).len() - 1]
            == sep,
{
    let start = last_segment_start(s, sep);
    lemma_last_segment_start(s, sep);
    let segment = last_segment(s, sep);
    assert forall|k: int| 0 <= k < segment.len() implies segment[k] != sep by {
        assert(segment[k] == s[start + k]);
    }
}

proof fn lemma_last_segment_start(s: Seq<char>, sep: char)
    ensures
        0 <= last_segment_start(s, sep) <= s.len(),
        last_segment_start(s, sep) > 0 ==> s[last_segment_start(s, sep) - 1] == sep,
        forall|k: int| last_segment_start(s, sep) <= k < s.len() ==> s[k] != sep,
    decreases s.len(),
{
    if s.len() > 0 && s.last() != sep {
        let front = s.drop_last();
        lemma_last_segment_start(front, sep);
        assert forall|k: int| last_segment_start(s, sep) <= k < s.len() implies s[k] != sep by {
            if k < front.len() {
                assert(front[k] == s[k]);
            }
        }
    }
}

/// The part of `s` after its last `sep`.
pub fn take_last_segment(s: &Vec<char>, sep: char) -> (r: Vec<char>)
    ensures
        r@ == last_segment(s@, sep),
{
    let mut start: usize = s.len();
    proof {
        assert(s@.take(s@.len() as int) =~= s@);
    }
    while start > 0 && s[start - 1] != sep
        invariant
            start <= s.len(),
            last_segment_start(s@, sep) == last_segment_start(s@.take(start as int), sep),
        decreases start,
    {
        proof {
            assert(s@.take(start as int).drop_last() =~= s@.take(start - 1));
        }
        start -= 1;
    }
    let mut r: Vec<char> = Vec::new();
    let mut i: usize = start;
    while i < s.len()
        invariant
            start <= i <= s.len(),
            r@ == s@.subrange(start as int, i as int),
        decreases s.len() - i,
    {
        r.push(s[i]);
        i += 1;
    }
    r
}

/// Whether `c` is white space: a character with the Unicode property
/// `White_Space`.
pub open spec fn is_space(c: char) -> bool {
    ||| '\u{9}' <= c <= '\u{d}'
    ||| c == ' '
    ||| c == '\u{85}'
    ||| c == '\u{a0}'
    ||| c == '\u{1680}'
    ||| '\u{2000}' <= c <= '\u{200a}'
    ||| c == '\u{2028}'
    ||| c == '\u{2029}'
    ||| c == '\u{202f}'
    ||| c == '\u{205f}'
    ||| c == '\u{3000}'
}

/// Tells whether `c` is white space.
pub fn char_is_space(c: char) -> (b: bool)
    ensures
        b == is_space(c),
{
    ('\u{9}' <= c && c <= '\u{d}') || c == ' ' || c == '\u{85}' || c == '\u{a0}' || c
        == '\u{1680}' || ('\u{2000}' <= c && c <= '\u{200a}') || c == '\u{2028}' || c
        == '\u{2029}' || c == '\u{202f}' || c == '\u{205f}' || c == '\u{3000}'
}

/// How many white-space characters `s` begins with.
pub open spec fn leading_spaces(s: Seq<char>) -> nat
    decreases s.len(),
{
    if s.len() > 0 && is_space(s.first()) {
        1 + leading_spaces(s.drop_first())
    } else {
        0
    }
}

/// How many white-space characters `s` ends with.
pub open spec fn trailing_spaces(s: Seq<char>) -> nat
    decreases s.len(),
{
    if s.len() > 0 && is_space(s.last()) {
        1 + trailing_spaces(s.drop_last())
    } else {
        0
    }
}

/// `s` without the white space at its start and at its end.
pub open spec fn trimmed(s: Seq<char>) -> Seq<char> {
    let rest = s.skip(leading_spaces(s) as int);
    rest.take(rest.len() - trailing_spaces(rest))
}

proof fn lemma_leading_spaces(s: Seq<char>)
    ensures
        leading_spaces(s) <= s.len(),
        forall|k: int| 0 <= k < leading_spaces(s) ==> is_space(s[k]),
        leading_spaces(s) < s.len() ==> !is_space(s[leading_spaces(s) as int]),
    decreases s.len(),
{
    if s.len() > 0 && is_space(s.first()) {
        let rest = s.drop_first();
        lemma_leading_spaces(rest);
        assert forall|k: int| 0 <= k < leading_spaces(s) implies is_space(s[k]) by {
            if k > 0 {
                assert(s[k] == rest[k - 1]);
            }
        }
        if leading_spaces(s) < s.len() {
            assert(s[leading_spaces(s) as int] == rest[leading_spaces(rest) as int]);
        }
    }
}

proof fn lemma_trailing_spaces(s: Seq<char>)
    ensures
        trailing_spaces(s) <= s.len(),
        forall|k: int| s.len() - trailing_spaces(s) <= k < s.len() ==> is_space(s[k]),
        trailing_spaces(s) < s.len() ==> !is_space(s[s.len() - trailing_spaces(s) - 1]),
    decreases s.len(),
{
    if s.len() > 0 && is_space(s.last()) {
        let rest = s.drop_last();
        lemma_trailing_spaces(rest);
        assert forall|k: int| s.len() - trailing_spaces(s) <= k < s.len() implies is_space(
            s[k],
        ) by {
            if k < rest.len() {
                assert(s[k] == rest[k]);
            }
        }
        if trailing_spaces(s) < s.len() {
            assert(s[s.len() - trailing_spaces(s) - 1] == rest[rest.len() - trailing_spaces(rest)
                - 1]);
        }
    }
}

/// The trimmed text is the stretch of `s` between its first and its last
/// character that is no white space: only white space lies before it and
/// behind it, and where it is not empty it begins and ends with a character
/// that is none.
pub proof fn law_trimmed(s: Seq<char>)
    ensures
        ({
            let first = leading_spaces(s) as int;
            let t = trimmed(s);
            &&& first + t.len() <= s.len()
            &&& t == s.subrange(first, first + t.len())
            &&& forall|k: int| 0 <= k < first ==> is_space(s[k])
            &&& forall|k: int| first + t.len() <= k < s.len() ==> is_space(s[k])
            &&& t.len() > 0 ==> !is_space(t.first()) && !is_space(t.last())
        }),
{
    let first = leading_spaces(s) as int;
    lemma_leading_spaces(s);
    let rest = s.skip(first);
    lemma_trailing_spaces(rest);
    let t = trimmed(s);
    assert forall|k: int| first + t.len() <= k < s.len() implies is_space(s[k]) by {
        assert(s[k] == rest[k - first]);
    }
    if t.len() > 0 {
        assert(t.last() == rest[rest.len() - trailing_spaces(rest) - 1]);
    }
}

/// Removes the white space at both ends of `s`.
pub fn trim(s: &Vec<char>) -> (r: Vec<char>)
    ensures
        r@ == trimmed(s@),
{
    let mut start: usize = 0;
    proof {
        assert(s@.skip(0) =~= s@);
    }
    while start < s.len() && char_is_space(s[start])
        invariant
            start <= s.len(),
            leading_spaces(s@) == start + leading_spaces(s@.skip(start as int)),
        decreases s.len() - start,
    {
        proof {
            assert(s@.skip(start as int).drop_first() =~= s@.skip(start + 1));
        }
        start += 1;
    }
    let ghost rest = s@.skip(start as int);
    let mut end: usize = s.len();
    proof {
        assert(rest.take(rest.len() as int) =~= rest);
    }
    while end > start && char_is_space(s[end - 1])
        invariant
            start <= end <= s.len(),
            rest == s@.skip(start as int),
            trailing_spaces(rest) == (s.len() - end) + trailing_spaces(rest.take(end - start)),
        decreases end,
    {
        proof {
            assert(rest.take(end - start).drop_last() =~= rest.take(end - start - 1));
        }
        end -= 1;
    }
    let mut r: Vec<char> = Vec::new();
    let mut i: usize = start;
    while i < end
        invariant
            start <= i <= end <= s.len(),
            r@ == s@.subrange(start as int, i as int),
        decreases end - i,
    {
        r.push(s[i]);
        i += 1;
    }
    r
}

/// The parts in order, with `sep` between each two neighbours.
pub open spec fn joined(parts: Seq<Seq<char>>, sep: Seq<char>) -> Seq<char>
    decreases parts.len(),
{
    if parts.len() == 0 {
        Seq::empty()
    } else if parts.len() == 1 {
        parts[0]
    } else {
        joined(parts.drop_last(), sep) + sep + parts.last()
    }
}

/// The characters of each part.
pub open spec fn parts_view(parts: Seq<Vec<char>>) -> Seq<Seq<char>> {
    parts.map_values(|p: Vec<char>| p@)
}

/// Joins `parts`, putting `sep` between each two neighbours.
pub fn join(parts: &Vec<Vec<char>>, sep: &Vec<char>) -> (r: Vec<char>)
    ensures
        r@ == joined(parts_view(parts@), sep@),
{
    let ghost all = parts_view(parts@);
    let mut r: Vec<char> = Vec::new();
    let mut i: usize = 0;
    while i < parts.len()
        invariant
            i <= parts.len(),
            all == parts_view(parts@),
            r@ == joined(all.take(i as int), sep@),
        decreases parts.len() - i,
    {
        if i > 0 {
            push_all(&mut r, sep);
        }
        push_all(&mut r, &parts[i]);
        proof {
            assert(all.take(i + 1).drop_last() =~= all.take(i as int));
        }
        i += 1;
    }
    proof {
        assert(all.take(parts.len() as int) =~= all);
    }
    r
}

/// `s` with a tab put after every line feed.
pub open spec fn indented(s: Seq<char>) -> Seq<char>
    decreases s.len(),
{
    if s.len() == 0 {
        s
    } else if s.last() == '\n' {
        indented(s.drop_last()).push('\n').push('\t')
    } else {
        indented(s.drop_last()).push(s.last())
    }
}

/// Puts a tab after every line feed of `s`.
pub fn indent(s: &Vec<char>) -> (r: Vec<char>)
    ensures
        r@ == indented(s@),
{
    let mut r: Vec<char> = Vec::new();
    let mut i: usize = 0;
    while i < s.len()
        invariant
            i <= s.len(),
            r@ == indented(s@.take(i as int)),
        decreases s.len() - i,
    {
        proof {
            assert(s@.take(i + 1).drop_last() =~= s@.take(i as int));
        }
        r.push(s[i]);
        if s[i] == '\n' {
            r.push('\t');
        }
        i += 1;
    }
    proof {
        assert(s@.take(s.len() as int) =~= s@);
    }
    r
}

/// The decimal digit for `d`, which is below ten.
pub open spec fn digit(d: nat) -> char {
    if d == 0 {
        '0'
    } else if d == 1 {
        '1'
    } else if d == 2 {
        '2'
    } else if d == 3 {
        '3'
    } else if d == 4 {
        '4'
    } else if d == 5 {
        '5'
    } else if d == 6 {
        '6'
    } else if d == 7 {
        '7'
    } else if d == 8 {
        '8'
    } else {
        '9'
    }
}

/// `n` in decimal, without leading zeros.
pub open spec fn decimal(n: nat) -> Seq<char>
    decreases n,
{
    if n < 10 {
        seq![digit(n)]
    } else {
        decimal(n / 10).push(digit(n % 10))
    }
}

/// The character of the decimal digit `d`.
pub(crate) fn digit_char(d: u64) -> (c: char)
    requires
        d < 10,
    ensures
        c == digit(d as nat),
{
    if d == 0 {
        '0'
    } else if d == 1 {
        '1'
    } else if d == 2 {
        '2'
    } else if d == 3 {
        '3'
    } else if d == 4 {
        '4'
    } else if d == 5 {
        '5'
    } else if d == 6 {
        '6'
    } else if d == 7 {
        '7'
    } else if d == 8 {
        '8'
    } else {
        '9'
    }
}

/// Appends `n` in decimal to `out`.
pub fn push_decimal(out: &mut Vec<char>, n: u64)
    ensures
        final(out)@ == old(out)@ + decimal(n as nat),
    decreases n,
{
    if n >= 10 {
        push_decimal(out, n / 10);
    }
    out.push(digit_char(n % 10));
}

/// `n` in decimal, with a minus sign before it where it is negative.
pub open spec fn signed_decimal(n: int) -> Seq<char> {
    if n < 0 {
        seq!['-'] + decimal((-n) as nat)
    } else {
        decimal(n as nat)
    }
}

/// Appends `n` in decimal, with its sign, to `out`.
pub fn push_signed(out: &mut Vec<char>, n: i64)
    ensures
        final(out)@ == old(out)@ + signed_decimal(n as int),
{
    if n < 0 {
        out.push('-');
        let size: u64 = (-(n as i128)) as u64;
        push_decimal(out, size);
    } else {
        push_decimal(out, n as u64);
    }
}

} // verus!
