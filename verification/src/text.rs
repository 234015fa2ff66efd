//! Text as sequences of characters: trimming, searching, splitting, replacing
//! and ordering, each with the sequence it computes as its contract.

use vstd::prelude::*;

verus! {

/// `String::push` appends one character at the end.
pub assume_specification[ std::string::String::push ](text: &mut std::string::String, ch: char)
    ensures
        final(text)@ == old(text)@.push(ch),
;

/// The characters with the Unicode property `White_Space`.
pub open spec fn is_space(c: char) -> bool {
    ||| '\u{9}' <= c <= '\u{d}'
    ||| c == ' '
    ||| c == '\u{85}'
    ||| c == '\u{a0}'
    ||| c == '\u{1680}'
    ||| '\u{2000}' <= c <= '\u{200a}'
    ||| c == '\u{2028}'
    ||| c == '\u{2029}'
    ||| c == '\u{202f}'
    ||| c == '\u{205f}'
    ||| c == '\u{3000}'
}

/// `text` without its leading white space.
pub open spec fn trimmed_start(text: Seq<char>) -> Seq<char>
    decreases text.len(),
{
    if text.len() > 0 && is_space(text[0]) {
        trimmed_start(text.skip(1))
    } else {
        text
    }
}

/// `text` without its trailing white space.
pub open spec fn trimmed_end(text: Seq<char>) -> Seq<char>
    decreases text.len(),
{
    if text.len() > 0 && is_space(text.last()) {
        trimmed_end(text.drop_last())
    } else {
        text
    }
}

/// `text` without white space at either end.
pub open spec fn trimmed(text: Seq<char>) -> Seq<char> {
    trimmed_end(trimmed_start(text))
}

/// Whether there is nothing but white space in `text`.
pub open spec fn is_blank(text: Seq<char>) -> bool {
    trimmed(text).len() == 0
}

/// `text` without the run of `c` at its end.
pub open spec fn without_trailing(text: Seq<char>, c: char) -> Seq<char>
    decreases text.len(),
{
    if text.len() > 0 && text.last() == c {
        without_trailing(text.drop_last(), c)
    } else {
        text
    }
}

/// Whether `pattern` stands in `text` at position `at`.
pub open spec fn occurs_at(text: Seq<char>, pattern: Seq<char>, at: int) -> bool {
    &&& 0 <= at
    &&& at + pattern.len() <= text.len()
    &&& text.subrange(at, at + pattern.len()) == pattern
}

/// Whether `pattern` stands anywhere in `text`.
pub open spec fn occurs(text: Seq<char>, pattern: Seq<char>) -> bool {
    exists|at: int| occurs_at(text, pattern, at)
}

/// Whether `at` is the first position at which `pattern` stands in `text`.
pub open spec fn first_at(text: Seq<char>, pattern: Seq<char>, at: int) -> bool {
    &&& occurs_at(text, pattern, at)
    &&& forall|i: int| i < at ==> !occurs_at(text, pattern, i)
}

/// What stands before the first `c` in `text`: all of it where there is none.
pub open spec fn before_first(text: Seq<char>, c: char) -> Seq<char>
    decreases text.len(),
{
    if text.len() == 0 || text[0] == c {
        Seq::empty()
    } else {
        seq![text[0]] + before_first(text.skip(1), c)
    }
}

/// The pieces of `text` between one `c` and the next, one more than there are
/// `c` in it.
pub open spec fn split_on(text: Seq<char>, c: char) -> Seq<Seq<char>>
    decreases text.len(),
{
    let head = before_first(text, c);
    if head.len() < text.len() {
        seq![head] + split_on(text.skip(head.len() as int + 1), c)
    } else {
        seq![head]
    }
}

/// `insert` before each character of `text` and once more at its end.
pub open spec fn interleaved(text: Seq<char>, insert: Seq<char>) -> Seq<char>
    decreases text.len(),
{
    if text.len() == 0 {
        insert
    } else {
        insert + seq![text[0]] + interleaved(text.skip(1), insert)
    }
}

/// `text` with each occurrence of `pattern`, taken from the left and without
/// overlap, replaced by `with`. The empty pattern stands between any two
/// characters and at both ends.
pub open spec fn replaced(text: Seq<char>, pattern: Seq<char>, with: Seq<char>) -> Seq<char>
    decreases text.len(),
{
    if pattern.len() == 0 {
        interleaved(text, with)
    } else if text.len() == 0 {
        text
    } else if occurs_at(text, pattern, 0) {
        with + replaced(text.skip(pattern.len() as int), pattern, with)
    } else {
        seq![text[0]] + replaced(text.skip(1), pattern, with)
    }
}

/// The order of texts: by the first character in which they differ, a proper
/// beginning before what it begins.
pub open spec fn precedes(a: Seq<char>, b: Seq<char>) -> bool
    decreases a.len(),
{
    if b.len() == 0 {
        false
    } else if a.len() == 0 {
        true
    } else if a[0] == b[0] {
        precedes(a.skip(1), b.skip(1))
    } else {
        a[0] < b[0]
    }
}

/// The views of a list of strings.
pub open spec fn texts(list: Seq<String>) -> Seq<Seq<char>> {
    list.map_values(|s: String| s@)
}

/// The view of an optional string.
pub open spec fn text_of(o: Option<String>) -> Option<Seq<char>> {
    match o {
        Some(s) => Some(s@),
        None => None,
    }
}

/// The view of an optional string slice.
pub open spec fn slice_of(o: Option<&str>) -> Option<Seq<char>> {
    match o {
        Some(s) => Some(s@),
        None => None,
    }
}

/// The characters of `text`.
pub fn to_chars(text: &str) -> (chars: Vec<char>)
    ensures
        chars@ == text@,
{
    let mut chars: Vec<char> = Vec::new();
    for c in it: text.chars()
        invariant
            chars@.len() == it.index(),
            it.seq() == text@,
            forall|i: int| 0 <= i < chars@.len() ==> chars@[i] == it.seq()[i],
    {
        chars.push(c);
    }
    chars
}

/// The text made of the characters from `from` up to `to`.
pub fn from_chars(chars: &Vec<char>, from: usize, to: usize) -> (text: String)
    requires
        from <= to <= chars@.len(),
    ensures
        text@ == chars@.subrange(from as int, to as int),
{
    let mut text = String::new();
    let mut i: usize = from;
    while i < to
        invariant
            from <= i <= to <= chars@.len(),
            text@ == chars@.subrange(from as int, i as int),
        decreases to - i,
    {
        text.push(chars[i]);
        i += 1;
    }
    text
}

/// Whether the two texts are the same.
pub fn same(a: &str, b: &str) -> (r: bool)
    ensures
        r == (a@ == b@),
{
    let x = to_chars(a);
    let y = to_chars(b);
    if x.len() != y.len() {
        return false;
    }
    let mut i: usize = 0;
    while i < x.len()
        invariant
            i <= x@.len(),
            x@.len() == y@.len(),
            x@ == a@,
            y@ == b@,
            forall|j: int| 0 <= j < i ==> x@[j] == y@[j],
        decreases x@.len() - i,
    {
        if x[i] != y[i] {
            assert(a@[i as int] != b@[i as int]);
            return false;
        }
        i += 1;
    }
    assert(a@ =~= b@);
    true
}

/// Whether `c` is white space.
pub fn is_whitespace(c: char) -> (r: bool)
    ensures
        r == is_space(c),
{
    (c >= '\u{9}' && c <= '\u{d}') || c == ' ' || c == '\u{85}' || c == '\u{a0}' || c == '\u{1680}'
        || (c >= '\u{2000}' && c <= '\u{200a}') || c == '\u{2028}' || c == '\u{2029}'
        || c == '\u{202f}' || c == '\u{205f}' || c == '\u{3000}'
}

/// `text` without white space at either end.
pub fn trim(text: &str) -> (r: &str)
    ensures
        r@ == trimmed(text@),
{
    let chars = to_chars(text);
    let mut from: usize = 0;
    assert(text@.skip(0) =~= text@);
    while from < chars.len() && is_whitespace(chars[from])
        invariant
            from <= chars@.len(),
            chars@ == text@,
            trimmed_start(text@) == trimmed_start(text@.skip(from as int)),
        decreases chars@.len() - from,
    {
        assert(text@.skip(from as int).skip(1) =~= text@.skip(from + 1));
        from += 1;
    }
    let ghost rest = text@.skip(from as int);
    assert(trimmed_start(text@) == rest);
    let mut to: usize = chars.len();
    assert(rest =~= text@.subrange(from as int, to as int));
    while to > from && is_whitespace(chars[to - 1])
        invariant
            from <= to <= chars@.len(),
            chars@ == text@,
            trimmed_end(rest) == trimmed_end(text@.subrange(from as int, to as int)),
        decreases to - from,
    {
        assert(text@.subrange(from as int, to as int).drop_last() =~= text@.subrange(
            from as int,
            to - 1,
        ));
        to -= 1;
    }
    text.substring_char(from, to)
}

/// Whether `pattern` stands in `text` at position `at`.
fn stands_at(text: &Vec<char>, pattern: &Vec<char>, at: usize) -> (r: bool)
    requires
        at <= text@.len(),
    ensures
        r == occurs_at(text@, pattern@, at as int),
{
    if pattern.len() > text.len() - at {
        return false;
    }
    let mut i: usize = 0;
    while i < pattern.len()
        invariant
            i <= pattern@.len(),
            at + pattern@.len() <= text.len(),
            forall|j: int| 0 <= j < i ==> text@[at + j] == pattern@[j],
        decreases pattern@.len() - i,
    {
        if text[at + i] != pattern[i] {
            assert(text@.subrange(at as int, at + pattern@.len())[i as int] != pattern@[i as int]);
            return false;
        }
        i += 1;
    }
    assert(text@.subrange(at as int, at + pattern@.len()) =~= pattern@);
    true
}

/// The first position, counted in characters, at which `pattern` stands in `text`.
pub fn find(text: &str, pattern: &str) -> (r: Option<usize>)
    ensures
        match r {
            Some(at) => first_at(text@, pattern@, at as int),
            None => !occurs(text@, pattern@),
        },
{
    let t = to_chars(text);
    let p = to_chars(pattern);
    let mut at: usize = 0;
    while at <= t.len()
        invariant
            at <= t@.len() + 1,
            t@ == text@,
            p@ == pattern@,
            forall|i: int| i < at ==> !occurs_at(text@, pattern@, i),
        decreases t@.len() + 1 - at,
    {
        if stands_at(&t, &p, at) {
            return Some(at);
        }
        if at == t.len() {
            return None;
        }
        at += 1;
    }
    None
}

/// Whether `pattern` stands anywhere in `text`.
pub fn contains(text: &str, pattern: &str) -> (r: bool)
    ensures
        r == occurs(text@, pattern@),
{
    find(text, pattern).is_some()
}

/// Whether `c` is in `text`.
pub fn has_char(text: &str, c: char) -> (r: bool)
    ensures
        r == text@.contains(c),
{
    let chars = to_chars(text);
    let mut i: usize = 0;
    while i < chars.len()
        invariant
            i <= chars@.len(),
            chars@ == text@,
            forall|j: int| 0 <= j < i ==> chars@[j] != c,
        decreases chars@.len() - i,
    {
        if chars[i] == c {
            assert(text@[i as int] == c);
            return true;
        }
        i += 1;
    }
    false
}

/// `text` without the run of `c` at its end.
pub fn trim_end_matches(text: &str, c: char) -> (r: &str)
    ensures
        r@ == without_trailing(text@, c),
{
    let chars = to_chars(text);
    let mut to: usize = chars.len();
    assert(text@.take(to as int) =~= text@);
    while to > 0 && chars[to - 1] == c
        invariant
            to <= chars@.len(),
            chars@ == text@,
            without_trailing(text@, c) == without_trailing(text@.take(to as int), c),
        decreases to,
    {
        assert(text@.take(to as int).drop_last() =~= text@.take(to - 1));
        to -= 1;
    }
    text.substring_char(0, to)
}

/// What a search for the first `c` has passed is not cut off.
proof fn lemma_before_first(text: Seq<char>, c: char, at: int)
    requires
        0 <= at <= text.len(),
        forall|i: int| 0 <= i < at ==> text[i] != c,
        at == text.len() || text[at] == c,
    ensures
        before_first(text, c) == text.take(at),
    decreases text.len(),
{
    if at == 0 {
        assert(text.take(0) =~= Seq::empty());
    } else {
        lemma_before_first(text.skip(1), c, at - 1);
        assert(seq![text[0]] + text.skip(1).take(at - 1) =~= text.take(at));
    }
}

/// The position of the first `c` at or after `from`, or the length.
fn next_of(chars: &Vec<char>, c: char, from: usize) -> (at: usize)
    requires
        from <= chars@.len(),
    ensures
        from <= at <= chars@.len(),
        at == chars@.len() || chars@[at as int] == c,
        before_first(chars@.skip(from as int), c) == chars@.subrange(from as int, at as int),
{
    let mut at: usize = from;
    while at < chars.len() && chars[at] != c
        invariant
            from <= at <= chars@.len(),
            forall|i: int| from <= i < at ==> chars@[i] != c,
        decreases chars@.len() - at,
    {
        at += 1;
    }
    proof {
        lemma_before_first(chars@.skip(from as int), c, at - from);
        assert(chars@.skip(from as int).take(at - from) =~= chars@.subrange(from as int, at as int));
    }
    at
}

/// What stands before the first `c` in `text`: all of it where there is none.
pub fn head(text: &str, c: char) -> (r: &str)
    ensures
        r@ == before_first(text@, c),
{
    let chars = to_chars(text);
    assert(text@.skip(0) =~= text@);
    let at: usize = next_of(&chars, c, 0);
    text.substring_char(0, at)
}

/// The pieces of `text` between one `c` and the next.
pub fn split(text: &str, c: char) -> (parts: Vec<String>)
    ensures
        texts(parts@) == split_on(text@, c),
{
    let chars = to_chars(text);
    let mut parts: Vec<String> = Vec::new();
    let mut from: usize = 0;
    assert(text@.skip(0) =~= text@);
    assert(texts(parts@) + split_on(text@, c) =~= split_on(text@, c));
    loop
        invariant
            from <= chars@.len(),
            chars@ == text@,
            texts(parts@) + split_on(text@.skip(from as int), c) == split_on(text@, c),
        decreases chars@.len() - from,
    {
        let at: usize = next_of(&chars, c, from);
        let part = from_chars(&chars, from, at);
        let ghost done = parts@;
        let ghost rest = text@.skip(from as int);
        parts.push(part);
        assert(texts(parts@) =~= texts(done) + seq![part@]);
        if at == chars.len() {
            assert(split_on(rest, c) == seq![part@]);
            return parts;
        }
        assert(rest.skip(part@.len() as int + 1) =~= text@.skip(at + 1));
        assert(split_on(rest, c) == seq![part@] + split_on(text@.skip(at + 1), c));
        assert(texts(parts@) + split_on(text@.skip(at + 1), c) =~= texts(done) + split_on(rest, c));
        from = at + 1;
    }
}

/// `text` with each occurrence of `pattern`, taken from the left and without
/// overlap, replaced by `with`.
pub fn replace(text: &str, pattern: &str, with: &str) -> (r: String)
    ensures
        r@ == replaced(text@, pattern@, with@),
{
    let t = to_chars(text);
    let p = to_chars(pattern);
    let mut out = String::new();
    let mut i: usize = 0;
    assert(text@.skip(0) =~= text@);
    assert(out@ + replaced(text@, pattern@, with@) =~= replaced(text@, pattern@, with@));
    while i < t.len()
        invariant
            i <= t@.len(),
            t@ == text@,
            p@ == pattern@,
            out@ + replaced(text@.skip(i as int), pattern@, with@) == replaced(
                text@,
                pattern@,
                with@,
            ),
        decreases t@.len() - i,
    {
        let ghost rest = text@.skip(i as int);
        let ghost done = out@;
        assert(forall|j: int| 0 <= j && i + j <= t@.len() ==> #[trigger] rest.skip(j) =~= text@.skip(i + j));
        if p.len() == 0 {
            out.append(with);
            out.push(t[i]);
            assert(out@ + replaced(rest.skip(1), pattern@, with@) =~= done + replaced(
                rest,
                pattern@,
                with@,
            ));
            i += 1;
        } else if stands_at(&t, &p, i) {
            assert(rest.subrange(0, pattern@.len() as int) =~= text@.subrange(
                i as int,
                i + pattern@.len(),
            ));
            out.append(with);
            assert(out@ + replaced(rest.skip(pattern@.len() as int), pattern@, with@) =~= done
                + replaced(rest, pattern@, with@));
            i += p.len();
        } else {
            assert(!occurs_at(rest, pattern@, 0)) by {
                if occurs_at(rest, pattern@, 0) {
                    assert(rest.subrange(0, pattern@.len() as int) =~= text@.subrange(
                        i as int,
                        i + pattern@.len(),
                    ));
                }
            }
            out.push(t[i]);
            assert(out@ + replaced(rest.skip(1), pattern@, with@) =~= done + replaced(
                rest,
                pattern@,
                with@,
            ));
            i += 1;
        }
    }
    assert(text@.skip(i as int) =~= Seq::empty());
    if p.len() == 0 {
        out.append(with);
    }
    assert(out@ =~= replaced(text@, pattern@, with@));
    out
}

/// Whether `a` comes before `b` in the order of texts.
pub fn comes_before(a: &str, b: &str) -> (r: bool)
    ensures
        r == precedes(a@, b@),
{
    let x = to_chars(a);
    let y = to_chars(b);
    let mut i: usize = 0;
    assert(a@.skip(0) =~= a@);
    assert(b@.skip(0) =~= b@);
    while i < x.len() && i < y.len() && x[i] == y[i]
        invariant
            i <= x@.len(),
            i <= y@.len(),
            x@ == a@,
            y@ == b@,
            precedes(a@, b@) == precedes(a@.skip(i as int), b@.skip(i as int)),
        decreases x@.len() - i,
    {
        assert(a@.skip(i as int).skip(1) =~= a@.skip(i + 1));
        assert(b@.skip(i as int).skip(1) =~= b@.skip(i + 1));
        i += 1;
    }
    if i == y.len() {
        false
    } else if i == x.len() {
        true
    } else {
        x[i] < y[i]
    }
}

/// No text comes before itself.
pub proof fn precedes_irreflexive(a: Seq<char>)
    ensures
        !precedes(a, a),
    decreases a.len(),
{
    if a.len() > 0 {
        precedes_irreflexive(a.skip(1));
    }
}

/// The order of texts is transitive.
pub proof fn precedes_transitive(a: Seq<char>, b: Seq<char>, c: Seq<char>)
    requires
        precedes(a, b),
        precedes(b, c),
    ensures
        precedes(a, c),
    decreases a.len(),
{
    if a.len() > 0 && a[0] == b[0] && b[0] == c[0] {
        precedes_transitive(a.skip(1), b.skip(1), c.skip(1));
    }
}

/// Of two different texts one comes before the other.
pub proof fn precedes_total(a: Seq<char>, b: Seq<char>)
    ensures
        a == b || precedes(a, b) || precedes(b, a),
    decreases a.len(),
{
    if a.len() == 0 || b.len() == 0 {
        if a.len() == b.len() {
            assert(a =~= b);
        }
    } else if a[0] == b[0] {
        precedes_total(a.skip(1), b.skip(1));
        if a.skip(1) == b.skip(1) {
            assert(a =~= seq![a[0]] + a.skip(1));
            assert(b =~= seq![b[0]] + b.skip(1));
        }
    }
}

/// What is left after trimming at the start begins with no white space.
proof fn lemma_trimmed_start(text: Seq<char>)
    ensures
        trimmed_start(text).len() > 0 ==> !is_space(trimmed_start(text)[0]),
    decreases text.len(),
{
    if text.len() > 0 && is_space(text[0]) {
        lemma_trimmed_start(text.skip(1));
    }
}

/// What is left after trimming at the end is a beginning of the text and ends
/// in no white space.
proof fn lemma_trimmed_end(text: Seq<char>)
    ensures
        trimmed_end(text).len() <= text.len(),
        trimmed_end(text) == text.take(trimmed_end(text).len() as int),
        trimmed_end(text).len() > 0 ==> !is_space(trimmed_end(text).last()),
    decreases text.len(),
{
    if text.len() > 0 && is_space(text.last()) {
        lemma_trimmed_end(text.drop_last());
        let n = trimmed_end(text).len() as int;
        assert(text.drop_last().take(n) =~= text.take(n));
    } else {
        assert(text.take(text.len() as int) =~= text);
    }
}

/// A trimmed text has no white space at either end, and trimming it again
/// changes nothing.
pub proof fn trimming_settles(text: Seq<char>)
    ensures
        trimmed(text).len() > 0 ==> !is_space(trimmed(text)[0]) && !is_space(trimmed(text).last()),
        trimmed(trimmed(text)) == trimmed(text),
{
    lemma_trimmed_start(text);
    lemma_trimmed_end(trimmed_start(text));
}

/// Nothing of the run is left at the end.
pub proof fn without_trailing_settles(text: Seq<char>, c: char)
    ensures
        without_trailing(text, c).len() > 0 ==> without_trailing(text, c).last() != c,
    decreases text.len(),
{
    if text.len() > 0 && text.last() == c {
        without_trailing_settles(text.drop_last(), c);
    }
}

/// Whether `pattern`, laid over `with` from position `at` of it, which may be
/// before its start, is the same wherever the two overlap.
pub open spec fn agrees(pattern: Seq<char>, with: Seq<char>, at: int) -> bool {
    forall|i: int|
        0 <= i < pattern.len() && 0 <= at + i < with.len() ==> #[trigger] pattern[i] == with[at + i]
}

/// Whether no occurrence of `pattern` can overlap a `with`.
pub open spec fn stays_clear(pattern: Seq<char>, with: Seq<char>) -> bool {
    &&& pattern.len() > 0
    &&& with.len() > 0
    &&& forall|at: int| -pattern.len() < at < with.len() ==> !#[trigger] agrees(pattern, with, at)
}

/// An occurrence behind a text that it stays clear of stands behind all of it.
proof fn lemma_occurs_behind(with: Seq<char>, rest: Seq<char>, other: Seq<char>, at: int)
    requires
        stays_clear(other, with),
        occurs_at(with + rest, other, at),
    ensures
        at >= with.len(),
        occurs_at(rest, other, at - with.len()),
{
    let all = with + rest;
    assert(forall|i: int|
        0 <= i < other.len() ==> #[trigger] other[i] == all.subrange(at, at + other.len())[i]);
    if at < with.len() {
        assert(agrees(other, with, at));
    }
    assert(rest.subrange(at - with.len(), at - with.len() + other.len()) =~= other);
}

/// Where the replaced text begins with what is left of a text that stays clear of
/// the replacement, so does the text.
proof fn lemma_replaced_beginning(
    text: Seq<char>,
    pattern: Seq<char>,
    with: Seq<char>,
    other: Seq<char>,
    skipped: int,
)
    requires
        stays_clear(other, with),
        0 <= skipped <= other.len(),
        occurs_at(replaced(text, pattern, with), other.skip(skipped), 0),
    ensures
        occurs_at(text, other.skip(skipped), 0),
    decreases text.len(),
{
    let r = replaced(text, pattern, with);
    let left = other.skip(skipped);
    if left.len() == 0 {
        assert(text.subrange(0, 0) =~= left);
    } else {
        assert(forall|i: int|
            0 <= i < left.len() ==> #[trigger] left[i] == r.subrange(0, left.len() as int)[i]);
        if pattern.len() == 0 || occurs_at(text, pattern, 0) && text.len() > 0 {
            assert(r.take(with.len() as int) =~= with);
            assert forall|i: int|
                0 <= i < other.len() && 0 <= i - skipped < with.len() implies #[trigger] other[i]
                == with[i - skipped] by {
                assert(left[i - skipped] == r[i - skipped]);
                assert(r.take(with.len() as int)[i - skipped] == r[i - skipped]);
            }
            assert(agrees(other, with, -skipped));
        } else if text.len() > 0 {
            let rest = replaced(text.skip(1), pattern, with);
            let tail = other.skip(skipped + 1);
            assert(forall|i: int| 0 <= i < tail.len() ==> #[trigger] tail[i] == left[i + 1]);
            assert(rest.subrange(0, tail.len() as int) =~= tail);
            lemma_replaced_beginning(text.skip(1), pattern, with, other, skipped + 1);
            assert(forall|i: int|
                0 <= i < tail.len() ==> #[trigger] tail[i] == text.skip(1).subrange(
                    0,
                    tail.len() as int,
                )[i]);
            assert(forall|i: int| 1 <= i < left.len() ==> #[trigger] left[i] == tail[i - 1]);
            assert(text.subrange(0, left.len() as int) =~= left);
        }
    }
}

/// A pattern found past the first position of `text` stands in what follows it.
proof fn lemma_occurs_later(text: Seq<char>, skipped: int, other: Seq<char>)
    requires
        0 <= skipped <= text.len(),
        occurs(text.skip(skipped), other),
    ensures
        occurs(text, other),
{
    let at = choose|at: int| occurs_at(text.skip(skipped), other, at);
    assert(text.subrange(at + skipped, at + skipped + other.len()) =~= text.skip(skipped).subrange(
        at,
        at + other.len(),
    ));
    assert(occurs_at(text, other, at + skipped));
}

/// Replacing brings in no text that stays clear of the replacement.
pub proof fn replacing_adds_nothing(
    text: Seq<char>,
    pattern: Seq<char>,
    with: Seq<char>,
    other: Seq<char>,
)
    requires
        stays_clear(other, with),
        occurs(replaced(text, pattern, with), other),
    ensures
        occurs(text, other),
    decreases text.len(),
{
    let r = replaced(text, pattern, with);
    let at = choose|at: int| occurs_at(r, other, at);
    if pattern.len() > 0 && text.len() == 0 {
        assert(occurs_at(text, other, at));
    } else if pattern.len() == 0 && text.len() == 0 {
        assert(with + Seq::<char>::empty() =~= with);
        lemma_occurs_behind(with, Seq::empty(), other, at);
    } else if pattern.len() > 0 && occurs_at(text, pattern, 0) {
        let n = pattern.len() as int;
        lemma_occurs_behind(with, replaced(text.skip(n), pattern, with), other, at);
        replacing_adds_nothing(text.skip(n), pattern, with, other);
        lemma_occurs_later(text, n, other);
    } else {
        let rest = replaced(text.skip(1), pattern, with);
        let one = seq![text[0]] + rest;
        let k = if pattern.len() == 0 {
            assert(r =~= with + one);
            lemma_occurs_behind(with, one, other, at);
            at - with.len()
        } else {
            at
        };
        assert(occurs_at(one, other, k));
        assert(forall|i: int| 0 <= i < other.len() ==> #[trigger] other[i] == one.subrange(k, k + other.len())[i]);
        if k > 0 {
            assert(rest.subrange(k - 1, k - 1 + other.len()) =~= other);
            assert(occurs_at(rest, other, k - 1));
            replacing_adds_nothing(text.skip(1), pattern, with, other);
            lemma_occurs_later(text, 1, other);
        } else {
            let tail = other.skip(1);
            assert(rest.subrange(0, tail.len() as int) =~= tail);
            lemma_replaced_beginning(text.skip(1), pattern, with, other, 1);
            assert(forall|i: int| 0 <= i < tail.len() ==> #[trigger] tail[i] == text.skip(1).subrange(0, tail.len() as int)[i]);
            assert(forall|i: int| 1 <= i < other.len() ==> #[trigger] other[i] == tail[i - 1]);
            assert(text.subrange(0, other.len() as int) =~= other);
            assert(occurs_at(text, other, 0));
        }
    }
}

/// After replacing, a pattern that stays clear of the replacement is gone.
pub proof fn replacing_removes(text: Seq<char>, pattern: Seq<char>, with: Seq<char>)
    requires
        stays_clear(pattern, with),
    ensures
        !occurs(replaced(text, pattern, with), pattern),
    decreases text.len(),
{
    let r = replaced(text, pattern, with);
    if occurs(r, pattern) {
        let at = choose|at: int| occurs_at(r, pattern, at);
        if text.len() == 0 {
            assert(false);
        } else if occurs_at(text, pattern, 0) {
            let n = pattern.len() as int;
            lemma_occurs_behind(with, replaced(text.skip(n), pattern, with), pattern, at);
            replacing_removes(text.skip(n), pattern, with);
            assert(false);
        } else {
            let rest = replaced(text.skip(1), pattern, with);
            if at > 0 {
                assert(rest.subrange(at - 1, at - 1 + pattern.len()) =~= r.subrange(
                    at,
                    at + pattern.len(),
                ));
                assert(occurs_at(rest, pattern, at - 1));
                replacing_removes(text.skip(1), pattern, with);
            } else {
                assert(pattern.skip(0) =~= pattern);
                lemma_replaced_beginning(text, pattern, with, pattern, 0);
            }
            assert(false);
        }
    }
}

/// Trimming takes white space off both ends and nothing else: what is left stands
/// in the text, between white space alone.
pub proof fn trimming_takes_white_space_alone(text: Seq<char>)
    ensures
        exists|from: int, to: int|
            0 <= from <= to <= text.len() && trimmed(text) == #[trigger] text.subrange(from, to) && (
            forall|i: int| 0 <= i < from ==> is_space(text[i])) && (forall|i: int|
                to <= i < text.len() ==> is_space(text[i])),
        is_blank(text) <==> (forall|i: int| 0 <= i < text.len() ==> is_space(text[i])),
{
    let from = lemma_start_skipped(text);
    let rest = trimmed_start(text);
    lemma_end_taken(rest);
    lemma_trimmed_end(rest);
    let to = from + trimmed_end(rest).len() as int;
    assert(trimmed(text) =~= text.subrange(from, to));
    assert forall|i: int| to <= i < text.len() implies is_space(text[i]) by {
        assert(rest[i - from] == text[i]);
    }
    if is_blank(text) {
        assert(from == to);
    } else {
        trimming_settles(text);
        assert(text[from] == trimmed(text)[0]);
    }
}

/// What trimming at the start skips is white space.
proof fn lemma_start_skipped(text: Seq<char>) -> (from: int)
    ensures
        0 <= from <= text.len(),
        trimmed_start(text) == text.skip(from),
        forall|i: int| 0 <= i < from ==> is_space(text[i]),
    decreases text.len(),
{
    if text.len() > 0 && is_space(text[0]) {
        let n = lemma_start_skipped(text.skip(1));
        assert(text.skip(1).skip(n) =~= text.skip(n + 1));
        assert forall|i: int| 0 <= i < n + 1 implies is_space(text[i]) by {
            if i > 0 {
                assert(text.skip(1)[i - 1] == text[i]);
            }
        }
        n + 1
    } else {
        assert(text.skip(0) =~= text);
        0
    }
}

/// What trimming at the end cuts off is white space.
proof fn lemma_end_taken(text: Seq<char>)
    ensures
        forall|i: int| trimmed_end(text).len() <= i < text.len() ==> is_space(text[i]),
    decreases text.len(),
{
    if text.len() > 0 && is_space(text.last()) {
        lemma_end_taken(text.drop_last());
        assert forall|i: int| trimmed_end(text).len() <= i < text.len() implies is_space(
            text[i],
        ) by {
            if i < text.len() - 1 {
                assert(text.drop_last()[i] == text[i]);
            }
        }
    }
}

/// Taking off the run of a character at the end takes off nothing else: what is
/// left begins the text, and behind it stands that character alone.
pub proof fn only_the_run_is_taken_off(text: Seq<char>, c: char)
    ensures
        without_trailing(text, c).len() <= text.len(),
        without_trailing(text, c) == text.take(without_trailing(text, c).len() as int),
        forall|i: int| without_trailing(text, c).len() <= i < text.len() ==> text[i] == c,
    decreases text.len(),
{
    if text.len() > 0 && text.last() == c {
        only_the_run_is_taken_off(text.drop_last(), c);
        let n = without_trailing(text, c).len() as int;
        assert(text.drop_last().take(n) =~= text.take(n));
        assert forall|i: int| n <= i < text.len() implies text[i] == c by {
            if i < text.len() - 1 {
                assert(text.drop_last()[i] == text[i]);
            }
        }
    } else {
        assert(text.take(text.len() as int) =~= text);
    }
}

/// What stands before the first of a character begins the text, does not hold the
/// character, and is followed by it unless the text ends there.
pub proof fn head_ends_at_the_first(text: Seq<char>, c: char)
    ensures
        before_first(text, c).len() <= text.len(),
        before_first(text, c) == text.take(before_first(text, c).len() as int),
        !before_first(text, c).contains(c),
        before_first(text, c).len() < text.len() ==> text[before_first(text, c).len() as int] == c,
    decreases text.len(),
{
    let h = before_first(text, c);
    if text.len() > 0 && text[0] != c {
        let rest = text.skip(1);
        let tail = before_first(rest, c);
        head_ends_at_the_first(rest, c);
        assert(h =~= text.take(h.len() as int)) by {
            assert forall|i: int| 0 <= i < h.len() implies h[i] == text[i] by {
                if i > 0 {
                    assert(h[i] == tail[i - 1]);
                    assert(tail[i - 1] == rest.take(tail.len() as int)[i - 1]);
                }
            }
        }
        assert(!h.contains(c)) by {
            if h.contains(c) {
                let i = choose|i: int| 0 <= i < h.len() && h[i] == c;
                assert(tail[i - 1] == c);
            }
        }
        if h.len() < text.len() {
            assert(rest[tail.len() as int] == text[h.len() as int]);
        }
    } else {
        assert(h =~= text.take(0));
    }
}

/// Texts put together with a character between one and the next.
pub open spec fn joined(parts: Seq<Seq<char>>, c: char) -> Seq<char>
    decreases parts.len(),
{
    if parts.len() == 0 {
        Seq::empty()
    } else if parts.len() == 1 {
        parts[0]
    } else {
        parts[0] + seq![c] + joined(parts.skip(1), c)
    }
}

/// The pieces that a text is split into, put together again, are the text, and no
/// piece holds the character it was split on.
pub proof fn splitting_loses_nothing(text: Seq<char>, c: char)
    ensures
        split_on(text, c).len() > 0,
        joined(split_on(text, c), c) == text,
        forall|k: int| 0 <= k < split_on(text, c).len() ==> !(#[trigger] split_on(text, c)[k]).contains(c),
    decreases text.len(),
{
    let h = before_first(text, c);
    let parts = split_on(text, c);
    head_ends_at_the_first(text, c);
    if h.len() < text.len() {
        let rest = text.skip(h.len() as int + 1);
        splitting_loses_nothing(rest, c);
        let tail = split_on(rest, c);
        assert(parts.skip(1) =~= tail);
        assert(text =~= h + seq![c] + rest);
        assert forall|k: int| 0 <= k < parts.len() implies !(#[trigger] parts[k]).contains(c) by {
            if k > 0 {
                assert(parts[k] == tail[k - 1]);
            }
        }
    } else {
        assert(text.take(text.len() as int) =~= text);
    }
}

/// A pattern stands in a text exactly where the text is something, the pattern,
/// and something more.
pub proof fn occurrence_splits_the_text(before: Seq<char>, pattern: Seq<char>, after: Seq<char>)
    ensures
        occurs_at(before + pattern + after, pattern, before.len() as int),
        occurs(before + pattern + after, pattern),
        forall|text: Seq<char>, at: int| #[trigger]
            occurs_at(text, pattern, at) ==> 0 <= at <= text.len() && text == text.take(at) + pattern
                + text.skip(at + pattern.len()),
{
    let all = before + pattern + after;
    let at = before.len() as int;
    assert(all.subrange(at, at + pattern.len()) =~= pattern);
    assert(occurs_at(all, pattern, at));
    assert forall|text: Seq<char>, at: int| #[trigger] occurs_at(text, pattern, at) implies 0 <= at
        <= text.len() && text == text.take(at) + pattern + text.skip(at + pattern.len()) by {
        assert(text =~= text.take(at) + text.subrange(at, at + pattern.len()) + text.skip(
            at + pattern.len(),
        ));
    }
}

/// Replacing leaves alone a text without the pattern; else it keeps what stands
/// before the first occurrence, puts the replacement in its place, and goes on
/// behind it.
pub proof fn replacing_goes_from_left_to_right(
    text: Seq<char>,
    pattern: Seq<char>,
    with: Seq<char>,
    at: int,
)
    requires
        pattern.len() > 0,
    ensures
        !occurs(text, pattern) ==> replaced(text, pattern, with) == text,
        first_at(text, pattern, at) ==> replaced(text, pattern, with) == text.take(at) + with
            + replaced(text.skip(at + pattern.len()), pattern, with),
    decreases text.len(),
{
    if text.len() == 0 {
        assert(!first_at(text, pattern, at));
    } else if occurs_at(text, pattern, 0) {
        assert(occurs(text, pattern));
        if first_at(text, pattern, at) {
            if at > 0 {
                assert(!occurs_at(text, pattern, 0));
            }
            assert(at == 0);
            assert(text.take(0) + with =~= with);
        }
    } else {
        let rest = text.skip(1);
        replacing_goes_from_left_to_right(rest, pattern, with, at - 1);
        if !occurs(text, pattern) {
            if occurs(rest, pattern) {
                lemma_occurs_later(text, 1, pattern);
            }
            assert(seq![text[0]] + rest =~= text);
        }
        if first_at(text, pattern, at) {
            assert(at > 0);
            assert(rest.subrange(at - 1, at - 1 + pattern.len()) =~= text.subrange(
                at,
                at + pattern.len(),
            ));
            assert forall|i: int| i < at - 1 implies !occurs_at(rest, pattern, i) by {
                if occurs_at(rest, pattern, i) {
                    assert(text.subrange(i + 1, i + 1 + pattern.len()) =~= rest.subrange(
                        i,
                        i + pattern.len(),
                    ));
                    assert(occurs_at(text, pattern, i + 1));
                }
            }
            assert(first_at(rest, pattern, at - 1));
            assert(rest.skip(at - 1 + pattern.len()) =~= text.skip(at + pattern.len()));
            assert(seq![text[0]] + (rest.take(at - 1) + with + replaced(
                rest.skip(at - 1 + pattern.len()),
                pattern,
                with,
            )) =~= text.take(at) + with + replaced(
                text.skip(at + pattern.len()),
                pattern,
                with,
            ));
        }
    }
}

/// Replacing the empty pattern puts the replacement before every character and
/// at the end.
pub proof fn replacing_nothing_goes_between(c: char, rest: Seq<char>, with: Seq<char>)
    ensures
        replaced(Seq::empty(), Seq::empty(), with) == with,
        replaced(seq![c] + rest, Seq::empty(), with) == with + seq![c] + replaced(
            rest,
            Seq::empty(),
            with,
        ),
{
    assert((seq![c] + rest).skip(1) =~= rest);
}

/// Texts are in the order of the first character in which they differ, and a
/// beginning of a text comes before it.
pub proof fn order_goes_by_the_first_difference(a: Seq<char>, b: Seq<char>, at: int)
    requires
        0 <= at <= a.len(),
        at < b.len(),
        a.take(at) == b.take(at),
    ensures
        at == a.len() ==> precedes(a, b) && !precedes(b, a),
        at < a.len() && a[at] < b[at] ==> precedes(a, b) && !precedes(b, a),
    decreases at,
{
    if at > 0 {
        assert(a[0] == a.take(at)[0]);
        assert(b[0] == b.take(at)[0]);
        assert(a.skip(1).take(at - 1) =~= a.take(at).skip(1));
        assert(b.skip(1).take(at - 1) =~= b.take(at).skip(1));
        order_goes_by_the_first_difference(a.skip(1), b.skip(1), at - 1);
    }
}

/// Texts are seen as they are, also where they may be missing and in a list.
pub proof fn texts_are_seen_as_they_are(owned: String, slice: &str, list: Seq<String>, i: int)
    ensures
        text_of(Some(owned)) == Some(owned@),
        text_of(None) is None,
        slice_of(Some(slice)) == Some(slice@),
        slice_of(None) is None,
        texts(list).len() == list.len(),
        0 <= i < list.len() ==> texts(list)[i] == list[i]@,
{
}

} // verus!
