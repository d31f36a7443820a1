//! Text as a sequence of characters: searching, splitting, trimming, ordering.
use vstd::prelude::*;

verus! {

/// `String::push` appends one character to the end of the string.
pub assume_specification[ String::push ](s: &mut String, ch: char)
    ensures
        final(s)@ == old(s)@.push(ch),
;

/// What each value of a list stands for.
pub open spec fn views<T: View>(list: Seq<T>) -> Seq<T::V> {
    list.map_values(|x: T| x@)
}

/// One step of making a list: where it stands for the first elements of `all`, and the next element
/// is added, it stands for one more of them.
pub proof fn lemma_push_step<T: View>(before: Seq<T>, item: T, all: Seq<T::V>, i: int)
    requires
        0 <= i < all.len(),
        views(before) == all.take(i),
        item@ == all[i],
    ensures
        views(before.push(item)) == all.take(i + 1),
{
    assert(views(before.push(item)) =~= views(before).push(item@));
    assert(all.take(i + 1) =~= all.take(i).push(all[i]));
}

/// What an optional value stands for.
pub open spec fn view_opt<T: View>(value: Option<T>) -> Option<T::V> {
    match value {
        Some(x) => Some(x@),
        None => None,
    }
}

/// The characters of `s`, in order.
pub fn chars_of(s: &str) -> (chars: Vec<char>)
    ensures
        chars@ == s@,
{
    let mut chars: Vec<char> = Vec::new();
    for c in it: s.chars()
        invariant
            chars@ == it.seq().take(it.index() as int),
            it.seq() == s@,
    {
        chars.push(c);
    }
    chars
}

/// The text that the characters from `from` up to `to` spell.
pub fn text_of(chars: &Vec<char>, from: usize, to: usize) -> (text: String)
    requires
        from <= to <= chars@.len(),
    ensures
        text@ == chars@.subrange(from as int, to as int),
{
    let mut text = String::new();
    let mut i: usize = from;
    while i < to
        invariant
            from <= i <= to <= chars@.len(),
            text@ == chars@.subrange(from as int, i as int),
        decreases to - i,
    {
        text.push(chars[i]);
        i += 1;
        assert(chars@.subrange(from as int, i as int) =~= chars@.subrange(
            from as int,
            i - 1,
        ).push(chars@[i - 1]));
    }
    text
}

/// Whether two texts spell the same.
pub fn same_text(a: &str, b: &str) -> (same: bool)
    ensures
        same == (a@ == b@),
{
    let a_chars = chars_of(a);
    let b_chars = chars_of(b);
    if a_chars.len() != b_chars.len() {
        return false;
    }
    let mut i: usize = 0;
    while i < a_chars.len()
        invariant
            i <= a_chars@.len(),
            a_chars@.len() == b_chars@.len(),
            a_chars@ == a@,
            b_chars@ == b@,
            forall|k: int| 0 <= k < i ==> a@[k] == b@[k],
        decreases a_chars@.len() - i,
    {
        if a_chars[i] != b_chars[i] {
            return false;
        }
        i += 1;
    }
    assert(a@ =~= b@);
    true
}

// ---------------------------------------------------------------------------
// White space
// ---------------------------------------------------------------------------

/// Whether a character has the Unicode property `White_Space`.
pub open spec fn is_white_space(c: char) -> bool {
    ||| '\u{9}' <= c <= '\u{d}'
    ||| c == '\u{20}'
    ||| c == '\u{85}'
    ||| c == '\u{a0}'
    ||| c == '\u{1680}'
    ||| '\u{2000}' <= c <= '\u{200a}'
    ||| c == '\u{2028}'
    ||| c == '\u{2029}'
    ||| c == '\u{202f}'
    ||| c == '\u{205f}'
    ||| c == '\u{3000}'
}

/// Whether a character has the Unicode property `White_Space`.
pub fn white_space(c: char) -> (white: bool)
    ensures
        white == is_white_space(c),
{
    ('\u{9}' <= c && c <= '\u{d}') || c == '\u{20}' || c == '\u{85}' || c == '\u{a0}' || c
        == '\u{1680}' || ('\u{2000}' <= c && c <= '\u{200a}') || c == '\u{2028}' || c == '\u{2029}'
        || c == '\u{202f}' || c == '\u{205f}' || c == '\u{3000}'
}

/// `s` without the white space that it starts with.
pub open spec fn trim_start(s: Seq<char>) -> Seq<char>
    decreases s.len(),
{
    if s.len() > 0 && is_white_space(s[0]) {
        trim_start(s.drop_first())
    } else {
        s
    }
}

/// `s` without the white space that it ends with.
pub open spec fn trim_end(s: Seq<char>) -> Seq<char>
    decreases s.len(),
{
    if s.len() > 0 && is_white_space(s.last()) {
        trim_end(s.drop_last())
    } else {
        s
    }
}

/// `s` without the white space at either end.
pub open spec fn trimmed(s: Seq<char>) -> Seq<char> {
    trim_end(trim_start(s))
}

/// `s` without the white space at either end.
pub fn trim(s: &str) -> (text: String)
    ensures
        text@ == trimmed(s@),
{
    let chars = chars_of(s);
    let mut from: usize = 0;
    assert(s@.subrange(0, s@.len() as int) =~= s@);
    while from < chars.len() && white_space(chars[from])
        invariant
            from <= chars@.len(),
            chars@ == s@,
            trim_start(s@) == trim_start(s@.subrange(from as int, s@.len() as int)),
        decreases chars@.len() - from,
    {
        assert(s@.subrange(from as int, s@.len() as int).drop_first() =~= s@.subrange(
            from + 1,
            s@.len() as int,
        ));
        from += 1;
    }
    let mut to: usize = chars.len();
    while from < to && white_space(chars[to - 1])
        invariant
            from <= to <= chars@.len(),
            chars@ == s@,
            trimmed(s@) == trim_end(s@.subrange(from as int, to as int)),
        decreases to - from,
    {
        assert(s@.subrange(from as int, to as int).drop_last() =~= s@.subrange(
            from as int,
            to - 1,
        ));
        to -= 1;
    }
    text_of(&chars, from, to)
}

/// Whether `s` holds white space only.
pub fn is_blank(s: &str) -> (blank: bool)
    ensures
        blank == (trimmed(s@).len() == 0),
{
    let text = trim(s);
    text.as_str().is_empty()
}

/// The text, or `other` where there is none.
pub open spec fn or_text(value: Option<Seq<char>>, other: Seq<char>) -> Seq<char> {
    match value {
        Some(text) => text,
        None => other,
    }
}

/// The text, or `other` where there is none.
pub fn text_or(value: Option<String>, other: &str) -> (text: String)
    ensures
        text@ == or_text(view_opt(value), other@),
{
    match value {
        Some(text) => text,
        None => other.to_owned(),
    }
}

/// Each text without the white space around it.
pub open spec fn trimmed_all(list: Seq<Seq<char>>) -> Seq<Seq<char>> {
    list.map_values(|text: Seq<char>| trimmed(text))
}

/// Each text without the white space around it.
pub fn trim_all(list: &Vec<String>) -> (trimmed_list: Vec<String>)
    ensures
        views(trimmed_list@) == trimmed_all(views(list@)),
{
    let ghost all = trimmed_all(views(list@));
    let mut trimmed_list: Vec<String> = Vec::new();
    let mut i: usize = 0;
    assert(views(trimmed_list@) =~= all.take(0));
    while i < list.len()
        invariant
            i <= list@.len(),
            all == trimmed_all(views(list@)),
            views(trimmed_list@) == all.take(i as int),
        decreases list@.len() - i,
    {
        let text = trim(list[i].as_str());
        proof {
            lemma_push_step(trimmed_list@, text, all, i as int);
        }
        trimmed_list.push(text);
        i += 1;
    }
    assert(all.take(i as int) =~= all);
    trimmed_list
}

/// `start` followed by `rest`.
pub fn concat(start: &str, rest: &str) -> (text: String)
    ensures
        text@ == start@ + rest@,
{
    let mut text = start.to_owned();
    text.append(rest);
    text
}

/// `s` without the characters `c` that it ends with.
pub open spec fn trim_end_char(s: Seq<char>, c: char) -> Seq<char>
    decreases s.len(),
{
    if s.len() > 0 && s.last() == c {
        trim_end_char(s.drop_last(), c)
    } else {
        s
    }
}

/// `s` without the characters `c` that it ends with.
pub fn trim_end_matches(s: &str, c: char) -> (text: String)
    ensures
        text@ == trim_end_char(s@, c),
{
    let chars = chars_of(s);
    let mut to: usize = chars.len();
    assert(s@.subrange(0, s@.len() as int) =~= s@);
    while 0 < to && chars[to - 1] == c
        invariant
            to <= chars@.len(),
            chars@ == s@,
            trim_end_char(s@, c) == trim_end_char(s@.subrange(0, to as int), c),
        decreases to,
    {
        assert(s@.subrange(0, to as int).drop_last() =~= s@.subrange(0, to - 1));
        to -= 1;
    }
    text_of(&chars, 0, to)
}

// ---------------------------------------------------------------------------
// Searching
// ---------------------------------------------------------------------------

/// Whether `pat` stands in `s` at position `i`.
pub open spec fn occurs_at(s: Seq<char>, pat: Seq<char>, i: int) -> bool {
    0 <= i && i + pat.len() <= s.len() && s.subrange(i, i + pat.len()) == pat
}

/// Whether `pat` stands somewhere in `s`.
pub open spec fn contains(s: Seq<char>, pat: Seq<char>) -> bool {
    exists|i: int| occurs_at(s, pat, i)
}

/// The first position, not before `from`, at which `pat` stands in `s`.
pub open spec fn find_from(s: Seq<char>, pat: Seq<char>, from: int) -> Option<int>
    decreases s.len() + 1 - from,
{
    if from + pat.len() > s.len() {
        None
    } else if occurs_at(s, pat, from) {
        Some(from)
    } else {
        find_from(s, pat, from + 1)
    }
}

/// Whether `s` begins with `pat`.
pub open spec fn begins_with(s: Seq<char>, pat: Seq<char>) -> bool {
    occurs_at(s, pat, 0)
}

/// Whether `pat` stands at position `i` of the characters `s`.
pub(crate) fn stands_at(s: &Vec<char>, pat: &Vec<char>, i: usize) -> (stands: bool)
    requires
        i <= s@.len(),
    ensures
        stands == occurs_at(s@, pat@, i as int),
{
    if s.len() - i < pat.len() {
        return false;
    }
    let mut k: usize = 0;
    while k < pat.len()
        invariant
            k <= pat@.len(),
            i + pat@.len() <= s@.len(),
            s@.len() <= usize::MAX,
            forall|j: int| 0 <= j < k ==> s@[i + j] == pat@[j],
        decreases pat@.len() - k,
    {
        if s[i + k] != pat[k] {
            assert(s@.subrange(i as int, i + pat@.len())[k as int] != pat@[k as int]);
            return false;
        }
        k += 1;
    }
    assert(s@.subrange(i as int, i + pat@.len()) =~= pat@);
    true
}

/// The first position, not before `from`, at which `pat` stands in `s`.
pub fn find_chars(s: &Vec<char>, pat: &Vec<char>, from: usize) -> (found: Option<usize>)
    requires
        from <= s@.len(),
    ensures
        match found {
            Some(i) => find_from(s@, pat@, from as int) == Some(i as int),
            None => find_from(s@, pat@, from as int) is None,
        },
        found matches Some(i) ==> from <= i && i + pat@.len() <= s@.len() <= usize::MAX,
{
    let mut i: usize = from;
    while pat.len() <= s.len() - i
        invariant
            from <= i <= s@.len(),
            find_from(s@, pat@, from as int) == find_from(s@, pat@, i as int),
        decreases s@.len() - i,
    {
        if stands_at(s, pat, i) {
            return Some(i);
        }
        proof {
            if i == s@.len() {
                assert(s@.subrange(i as int, i as int) =~= pat@);
            }
        }
        i += 1;
    }
    None
}

/// `find_from` finds nothing exactly where `pat` stands nowhere from `from` on, and otherwise the
/// first place where it stands.
pub proof fn lemma_find_from(s: Seq<char>, pat: Seq<char>, from: int)
    requires
        0 <= from,
    ensures
        match find_from(s, pat, from) {
            Some(i) => from <= i && occurs_at(s, pat, i) && forall|j: int|
                from <= j < i ==> !occurs_at(s, pat, j),
            None => forall|j: int| from <= j ==> !occurs_at(s, pat, j),
        },
    decreases s.len() + 1 - from,
{
    if from + pat.len() <= s.len() && !occurs_at(s, pat, from) {
        lemma_find_from(s, pat, from + 1);
    }
}

/// Whether `pat` stands somewhere in `s`.
pub fn text_contains(s: &str, pat: &str) -> (found: bool)
    ensures
        found == contains(s@, pat@),
{
    let chars = chars_of(s);
    let pat_chars = chars_of(pat);
    proof {
        lemma_find_from(s@, pat@, 0);
    }
    match find_chars(&chars, &pat_chars, 0) {
        Some(i) => {
            assert(occurs_at(s@, pat@, i as int));
            true
        },
        None => false,
    }
}

/// Whether `s` begins with `pat`.
pub fn starts_with(s: &str, pat: &str) -> (starts: bool)
    ensures
        starts == begins_with(s@, pat@),
{
    let chars = chars_of(s);
    let pat_chars = chars_of(pat);
    stands_at(&chars, &pat_chars, 0)
}

// ---------------------------------------------------------------------------
// Case
// ---------------------------------------------------------------------------

/// An ASCII upper-case letter as its lower-case letter; any other character as it is.
pub open spec fn lower_char(c: char) -> char {
    if 'A' <= c <= 'Z' {
        ((c as u32) + 32) as char
    } else {
        c
    }
}

/// `s` with its ASCII upper-case letters made lower case.
pub open spec fn lower(s: Seq<char>) -> Seq<char> {
    s.map_values(|c: char| lower_char(c))
}

/// An ASCII upper-case letter as its lower-case letter; any other character as it is.
fn to_lower(c: char) -> (l: char)
    ensures
        l == lower_char(c),
{
    if 'A' <= c && c <= 'Z' {
        ((c as u8) + 32) as char
    } else {
        c
    }
}

/// `s` with its ASCII upper-case letters made lower case.
pub fn to_ascii_lowercase(s: &str) -> (text: String)
    ensures
        text@ == lower(s@),
{
    let chars = chars_of(s);
    let mut text = String::new();
    let mut i: usize = 0;
    while i < chars.len()
        invariant
            i <= chars@.len(),
            chars@ == s@,
            text@ == lower(s@.take(i as int)),
        decreases chars@.len() - i,
    {
        text.push(to_lower(chars[i]));
        i += 1;
        assert(lower(s@.take(i as int)) =~= lower(s@.take(i - 1)).push(lower_char(s@[i - 1])));
    }
    assert(s@.take(s@.len() as int) =~= s@);
    text
}

/// Making a text lower case twice is making it lower case once.
pub proof fn lemma_lower_idempotent(s: Seq<char>)
    ensures
        lower(lower(s)) == lower(s),
{
    assert(lower(lower(s)) =~= lower(s));
}

// ---------------------------------------------------------------------------
// Splitting, joining, removing
// ---------------------------------------------------------------------------

/// The pieces of `s` between the characters `sep`.
pub open spec fn split(s: Seq<char>, sep: char) -> Seq<Seq<char>>
    decreases s.len(),
{
    if s.len() == 0 {
        seq![Seq::empty()]
    } else {
        let before = split(s.drop_last(), sep);
        if s.last() == sep {
            before.push(Seq::empty())
        } else {
            before.drop_last().push(before.last().push(s.last()))
        }
    }
}

/// The piece of `s` with the number `n`, counted from zero, where `s` has that many pieces.
pub open spec fn piece(s: Seq<char>, sep: char, n: int) -> Option<Seq<char>> {
    if 0 <= n < split(s, sep).len() {
        Some(split(s, sep)[n])
    } else {
        None
    }
}

/// There is always a first piece.
pub proof fn lemma_split_not_empty(s: Seq<char>, sep: char)
    ensures
        split(s, sep).len() > 0,
    decreases s.len(),
{
    if s.len() > 0 {
        lemma_split_not_empty(s.drop_last(), sep);
    }
}

/// The piece of `s` with the number `n`, counted from zero, where `s` has that many pieces.
pub fn nth_piece(s: &str, sep: char, n: usize) -> (text: Option<String>)
    ensures
        view_opt(text) == piece(s@, sep, n as int),
{
    let chars = chars_of(s);
    let mut current = String::new();
    let mut done: Option<String> = None;
    let mut count: usize = 0;
    let mut i: usize = 0;
    while i < chars.len()
        invariant
            i <= chars@.len(),
            count <= i,
            chars@ == s@,
            split(s@.take(i as int), sep).len() == count + 1,
            current@ == split(s@.take(i as int), sep).last(),
            match done {
                Some(d) => n < count && d@ == split(s@.take(i as int), sep)[n as int],
                None => count <= n,
            },
        decreases chars@.len() - i,
    {
        assert(s@.take(i + 1).drop_last() =~= s@.take(i as int));
        if chars[i] == sep {
            if count == n {
                done = Some(current);
            }
            current = String::new();
            count += 1;
        } else {
            current.push(chars[i]);
        }
        i += 1;
    }
    assert(s@.take(s@.len() as int) =~= s@);
    if count == n {
        Some(current)
    } else {
        done
    }
}

/// The last position at which `c` stands in `s`.
pub open spec fn last_at(s: Seq<char>, c: char) -> Option<int>
    decreases s.len(),
{
    if s.len() == 0 {
        None
    } else if s.last() == c {
        Some(s.len() - 1)
    } else {
        last_at(s.drop_last(), c)
    }
}

/// What stands before and after the last `c` of `s`, where `s` holds one.
pub open spec fn split_last(s: Seq<char>, c: char) -> Option<(Seq<char>, Seq<char>)> {
    match last_at(s, c) {
        Some(i) => Some((s.take(i), s.skip(i + 1))),
        None => None,
    }
}

/// What stands before and after the last `c` of `s`, where `s` holds one.
pub fn rsplit_once(s: &str, c: char) -> (parts: Option<(String, String)>)
    ensures
        match parts {
            Some((before, after)) => split_last(s@, c) == Some((before@, after@)),
            None => split_last(s@, c) is None,
        },
{
    let chars = chars_of(s);
    let mut i: usize = chars.len();
    assert(s@.take(s@.len() as int) =~= s@);
    while 0 < i
        invariant
            i <= chars@.len(),
            chars@ == s@,
            last_at(s@, c) == last_at(s@.take(i as int), c),
        decreases i,
    {
        if chars[i - 1] == c {
            let before = text_of(&chars, 0, i - 1);
            let after = text_of(&chars, i, chars.len());
            assert(before@ =~= s@.take(i - 1));
            assert(after@ =~= s@.skip(i as int));
            return Some((before, after));
        }
        assert(s@.take(i as int).drop_last() =~= s@.take(i - 1));
        i -= 1;
    }
    None
}

/// `s` without the places where `pat` stands, taken from left to right; `s` itself where `pat`
/// is empty.
pub open spec fn without(s: Seq<char>, pat: Seq<char>) -> Seq<char>
    decreases s.len(),
{
    if pat.len() == 0 || s.len() < pat.len() {
        s
    } else if begins_with(s, pat) {
        without(s.skip(pat.len() as int), pat)
    } else {
        seq![s[0]] + without(s.drop_first(), pat)
    }
}

/// `s` without the places where `pat` stands, taken from left to right; `s` itself where `pat`
/// is empty.
pub fn remove_all(s: &str, pat: &str) -> (text: String)
    ensures
        text@ == without(s@, pat@),
{
    let chars = chars_of(s);
    let pat_chars = chars_of(pat);
    let mut text = String::new();
    if pat_chars.len() == 0 {
        text = text_of(&chars, 0, chars.len());
        assert(text@ =~= s@);
        return text;
    }
    let mut i: usize = 0;
    assert(s@.skip(0) =~= s@);
    assert(text@ + without(s@, pat@) =~= without(s@, pat@));
    while pat_chars.len() <= chars.len() - i
        invariant
            i <= chars@.len(),
            chars@ == s@,
            pat_chars@ == pat@,
            pat@.len() > 0,
            text@ + without(s@.skip(i as int), pat@) == without(s@, pat@),
        decreases chars@.len() - i,
    {
        let ghost rest = s@.skip(i as int);
        let ghost before = text@;
        let stands = stands_at(&chars, &pat_chars, i);
        proof {
            if occurs_at(s@, pat@, i as int) {
                assert(rest.subrange(0, pat@.len() as int) =~= pat@);
            }
            if begins_with(rest, pat@) {
                assert(s@.subrange(i as int, i + pat@.len()) =~= rest.subrange(
                    0,
                    pat@.len() as int,
                ));
            }
            assert(stands == begins_with(rest, pat@));
        }
        if stands {
            assert(rest.skip(pat@.len() as int) =~= s@.skip(i + pat@.len()));
            i += pat_chars.len();
        } else {
            text.push(chars[i]);
            assert(rest.drop_first() =~= s@.skip(i + 1));
            i += 1;
            assert(before + (seq![rest[0]] + without(s@.skip(i as int), pat@)) =~= text@ + without(
                s@.skip(i as int),
                pat@,
            ));
        }
    }
    let tail = text_of(&chars, i, chars.len());
    assert(tail@ =~= s@.skip(i as int));
    text.append(tail.as_str());
    text
}

/// The texts one after the other, with `sep` between two of them.
pub open spec fn joined(parts: Seq<Seq<char>>, sep: Seq<char>) -> Seq<char>
    decreases parts.len(),
{
    if parts.len() == 0 {
        Seq::empty()
    } else if parts.len() == 1 {
        parts[0]
    } else {
        joined(parts.drop_last(), sep) + sep + parts.last()
    }
}

/// The texts one after the other, with `sep` between two of them.
pub fn join(parts: &Vec<String>, sep: &str) -> (text: String)
    ensures
        text@ == joined(views(parts@), sep@),
{
    let mut text = String::new();
    let mut i: usize = 0;
    while i < parts.len()
        invariant
            i <= parts@.len(),
            text@ == joined(views(parts@).take(i as int), sep@),
        decreases parts@.len() - i,
    {
        if i > 0 {
            text.append(sep);
        }
        text.append(parts[i].as_str());
        i += 1;
        assert(views(parts@).take(i as int).drop_last() =~= views(parts@).take(i - 1));
        if i == 1 {
            assert(text@ =~= parts@[0]@);
        }
    }
    assert(views(parts@).take(parts@.len() as int) =~= views(parts@));
    text
}

// ---------------------------------------------------------------------------
// Order
// ---------------------------------------------------------------------------

/// Whether `a` stands before `b`, or is `b`, in the order of texts: by the first character in
/// which they differ, a text before the texts that it begins.
pub open spec fn not_after(a: Seq<char>, b: Seq<char>) -> bool
    decreases a.len(),
{
    if a.len() == 0 {
        true
    } else if b.len() == 0 {
        false
    } else if a[0] == b[0] {
        not_after(a.drop_first(), b.drop_first())
    } else {
        a[0] < b[0]
    }
}

/// Whether `a` stands before `b`, or is `b`, in the order of texts.
pub fn text_not_after(a: &str, b: &str) -> (le: bool)
    ensures
        le == not_after(a@, b@),
{
    let a_chars = chars_of(a);
    let b_chars = chars_of(b);
    let mut i: usize = 0;
    assert(a@.skip(0) =~= a@);
    assert(b@.skip(0) =~= b@);
    while i < a_chars.len() && i < b_chars.len()
        invariant
            i <= a_chars@.len(),
            i <= b_chars@.len(),
            a_chars@ == a@,
            b_chars@ == b@,
            not_after(a@, b@) == not_after(a@.skip(i as int), b@.skip(i as int)),
        decreases a_chars@.len() - i,
    {
        if a_chars[i] != b_chars[i] {
            return a_chars[i] < b_chars[i];
        }
        assert(a@.skip(i as int).drop_first() =~= a@.skip(i + 1));
        assert(b@.skip(i as int).drop_first() =~= b@.skip(i + 1));
        i += 1;
    }
    i >= a_chars.len()
}

/// The order of texts is total.
pub proof fn lemma_not_after_total(a: Seq<char>, b: Seq<char>)
    ensures
        not_after(a, b) || not_after(b, a),
    decreases a.len(),
{
    if a.len() > 0 && b.len() > 0 {
        lemma_not_after_total(a.drop_first(), b.drop_first());
    }
}

/// Texts that stand before each other are the same.
pub proof fn lemma_not_after_antisymmetric(a: Seq<char>, b: Seq<char>)
    requires
        not_after(a, b),
        not_after(b, a),
    ensures
        a == b,
    decreases a.len(),
{
    if a.len() > 0 && b.len() > 0 {
        lemma_not_after_antisymmetric(a.drop_first(), b.drop_first());
        assert(a =~= seq![a[0]] + a.drop_first());
        assert(b =~= seq![b[0]] + b.drop_first());
    } else {
        assert(a =~= b);
    }
}

/// The order of texts is transitive.
pub proof fn lemma_not_after_transitive(a: Seq<char>, b: Seq<char>, c: Seq<char>)
    requires
        not_after(a, b),
        not_after(b, c),
    ensures
        not_after(a, c),
    decreases a.len(),
{
    if a.len() > 0 && b.len() > 0 && c.len() > 0 && a[0] == b[0] && b[0] == c[0] {
        lemma_not_after_transitive(a.drop_first(), b.drop_first(), c.drop_first());
    }
}

// ---------------------------------------------------------------------------
// Numbers
// ---------------------------------------------------------------------------

/// The character of a decimal digit.
pub open spec fn digit(d: nat) -> char {
    ('0' as u32 + d) as char
}

/// The decimal digits of `n`.
pub open spec fn digits(n: nat) -> Seq<char>
    decreases n,
{
    if n < 10 {
        seq![digit(n)]
    } else {
        digits(n / 10).push(digit(n % 10))
    }
}

/// `n` in decimal notation.
pub open spec fn decimal(n: int) -> Seq<char> {
    if n < 0 {
        seq!['-'] + digits((-n) as nat)
    } else {
        digits(n as nat)
    }
}

/// Appends the decimal digits of `n`.
fn append_digits(text: &mut String, n: u64)
    ensures
        final(text)@ == old(text)@ + digits(n as nat),
    decreases n,
{
    if n >= 10 {
        append_digits(text, n / 10);
    }
    let d: u8 = (n % 10) as u8;
    text.push((48 + d) as char);
    assert(text@ =~= old(text)@ + digits(n as nat));
}

/// `n` in decimal notation.
pub fn to_decimal_u64(n: u64) -> (text: String)
    ensures
        text@ == decimal(n as int),
{
    let mut text = String::new();
    append_digits(&mut text, n);
    assert(text@ =~= decimal(n as int));
    text
}

/// `n` in decimal notation.
pub fn to_decimal(n: i64) -> (text: String)
    ensures
        text@ == decimal(n as int),
{
    let mut text = String::new();
    if n < 0 {
        text.push('-');
        let magnitude: u64 = if n == i64::MIN {
            0x8000_0000_0000_0000u64
        } else {
            (-n) as u64
        };
        append_digits(&mut text, magnitude);
    } else {
        append_digits(&mut text, n as u64);
    }
    assert(text@ =~= decimal(n as int));
    text
}

/// Different numbers have different digits.
pub proof fn lemma_digits_injective(a: nat, b: nat)
    requires
        digits(a) == digits(b),
    ensures
        a == b,
    decreases a,
{
    lemma_digits_not_empty(a / 10);
    lemma_digits_not_empty(b / 10);
    assert(a >= 10 ==> digits(a).len() == digits(a / 10).len() + 1);
    assert(b >= 10 ==> digits(b).len() == digits(b / 10).len() + 1);
    assert(a < 10 ==> digits(a).len() == 1);
    assert(b < 10 ==> digits(b).len() == 1);
    assert(digits(a).last() == digits(b).last());
    if a >= 10 {
        assert(digits(a).drop_last() =~= digits(a / 10));
        assert(digits(b).drop_last() =~= digits(b / 10));
        lemma_digits_injective(a / 10, b / 10);
        assert(digits(a).last() == digit(a % 10) && digits(b).last() == digit(b % 10));
        lemma_digit_injective(a % 10, b % 10);
    } else {
        assert(digits(a).last() == digit(a) && digits(b).last() == digit(b));
        lemma_digit_injective(a, b);
    }
}

proof fn lemma_digit_injective(a: nat, b: nat)
    requires
        a < 10,
        b < 10,
        digit(a) == digit(b),
    ensures
        a == b,
{
    assert(digit(a) as u32 == '0' as u32 + a);
    assert(digit(b) as u32 == '0' as u32 + b);
}

proof fn lemma_digits_not_empty(n: nat)
    ensures
        digits(n).len() > 0,
{
}

// ---------------------------------------------------------------------------
// Laws
// ---------------------------------------------------------------------------

/// A list stands for what its elements stand for, one by one and in order.
pub proof fn law_views<T: View>(list: Seq<T>)
    ensures
        views(list).len() == list.len(),
        forall|i: int| 0 <= i < list.len() ==> #[trigger] views(list)[i] == list[i]@,
{
}

/// White space are the control characters from the tabulator to the carriage return and `U+0085`,
/// and the spaces and separators of Unicode.
pub proof fn law_white_space(c: char)
    ensures
        is_white_space(c) <==> c == '\t' || c == '\n' || c == '\u{b}' || c == '\u{c}' || c == '\r'
            || c == ' ' || c == '\u{85}' || c == '\u{a0}' || c == '\u{1680}' || 0x2000 <= c as u32
            <= 0x200a || c == '\u{2028}' || c == '\u{2029}' || c == '\u{202f}' || c == '\u{205f}'
            || c == '\u{3000}',
{
}

/// Trimming takes white space only, at both ends and all of it: what is left is the text between
/// two positions, before and behind which stands nothing but white space, and it neither begins nor
/// ends with white space.
pub proof fn law_trimmed(s: Seq<char>)
    ensures
        exists|a: int, b: int|
            {
                &&& 0 <= a <= b <= s.len()
                &&& trimmed(s) == #[trigger] s.subrange(a, b)
                &&& forall|i: int| 0 <= i < a ==> is_white_space(#[trigger] s[i])
                &&& forall|i: int| b <= i < s.len() ==> is_white_space(#[trigger] s[i])
                &&& a < b ==> !is_white_space(s[a]) && !is_white_space(s[b - 1])
            },
{
    let a = lemma_trim_start(s);
    let rest = trim_start(s);
    let n = lemma_trim_end(rest);
    let b = a + n;
    assert(trimmed(s) =~= s.subrange(a, b));
    assert forall|i: int| b <= i < s.len() implies is_white_space(#[trigger] s[i]) by {
        assert(rest[i - a] == s[i]);
    }
    if a < b {
        assert(rest[0] == s[a]);
        assert(rest[n - 1] == s[b - 1]);
    }
}

proof fn lemma_trim_start(s: Seq<char>) -> (a: int)
    ensures
        0 <= a <= s.len(),
        trim_start(s) == s.skip(a),
        forall|i: int| 0 <= i < a ==> is_white_space(#[trigger] s[i]),
        a < s.len() ==> !is_white_space(s[a]),
    decreases s.len(),
{
    if s.len() > 0 && is_white_space(s[0]) {
        let rest = s.drop_first();
        let b = lemma_trim_start(rest);
        assert(rest.skip(b) =~= s.skip(b + 1));
        assert forall|i: int| 0 <= i < b + 1 implies is_white_space(#[trigger] s[i]) by {
            if i > 0 {
                assert(rest[i - 1] == s[i]);
            }
        }
        if b < rest.len() {
            assert(rest[b] == s[b + 1]);
        }
        b + 1
    } else {
        assert(s.skip(0) =~= s);
        0
    }
}

proof fn lemma_trim_end(s: Seq<char>) -> (b: int)
    ensures
        0 <= b <= s.len(),
        trim_end(s) == s.take(b),
        forall|i: int| b <= i < s.len() ==> is_white_space(#[trigger] s[i]),
        b > 0 ==> !is_white_space(s[b - 1]),
    decreases s.len(),
{
    if s.len() > 0 && is_white_space(s.last()) {
        let front = s.drop_last();
        let b = lemma_trim_end(front);
        assert(front.take(b) =~= s.take(b));
        assert forall|i: int| b <= i < s.len() implies is_white_space(#[trigger] s[i]) by {
            if i < front.len() {
                assert(front[i] == s[i]);
            }
        }
        b
    } else {
        assert(s.take(s.len() as int) =~= s);
        s.len() as int
    }
}

/// A text that has nothing to trim stays as it is, and trimming keeps a text that is not blank from
/// becoming empty.
pub proof fn law_trimmed_keeps(s: Seq<char>)
    ensures
        s.len() > 0 && !is_white_space(s[0]) && !is_white_space(s.last()) ==> trimmed(s) == s,
        trimmed(s).len() == 0 <==> forall|i: int|
            0 <= i < s.len() ==> is_white_space(#[trigger] s[i]),
        trimmed(trimmed(s)) == trimmed(s),
{
    law_trimmed(s);
    let (a, b) = choose|a: int, b: int|
        {
            &&& 0 <= a <= b <= s.len()
            &&& trimmed(s) == #[trigger] s.subrange(a, b)
            &&& forall|i: int| 0 <= i < a ==> is_white_space(#[trigger] s[i])
            &&& forall|i: int| b <= i < s.len() ==> is_white_space(#[trigger] s[i])
            &&& a < b ==> !is_white_space(s[a]) && !is_white_space(s[b - 1])
        };
    let t = trimmed(s);
    if s.len() > 0 && !is_white_space(s[0]) && !is_white_space(s.last()) {
        assert(is_white_space(s[0]) || a == 0);
        assert(b == s.len()) by {
            if b < s.len() {
                assert(is_white_space(s[s.len() - 1]));
            }
        }
        assert(t =~= s);
    }
    if t.len() > 0 {
        assert(t[0] == s[a] && t.last() == s[b - 1]);
        assert(trim_start(t) == t);
        assert(trim_end(t) == t);
    } else {
        assert(a == b);
        assert(trim_start(t) == t);
    }
}

/// What is cut from the end of a text is all of one character, and no more of it is left there.
pub proof fn law_trim_end_char(s: Seq<char>, c: char)
    ensures
        trim_end_char(s, c).len() <= s.len(),
        trim_end_char(s, c) == s.take(trim_end_char(s, c).len() as int),
        forall|i: int| trim_end_char(s, c).len() <= i < s.len() ==> #[trigger] s[i] == c,
        trim_end_char(s, c).len() > 0 ==> trim_end_char(s, c).last() != c,
    decreases s.len(),
{
    if s.len() > 0 && s.last() == c {
        let front = s.drop_last();
        law_trim_end_char(front, c);
        let n = trim_end_char(front, c).len() as int;
        assert(front.take(n) =~= s.take(n));
        assert forall|i: int| n <= i < s.len() implies #[trigger] s[i] == c by {
            if i < front.len() {
                assert(front[i] == s[i]);
            }
        }
    } else {
        assert(s.take(s.len() as int) =~= s);
    }
}

/// Lower case changes the letters from `A` to `Z` only, each to the letter 32 places on.
pub proof fn law_lower(s: Seq<char>)
    ensures
        lower(s).len() == s.len(),
        forall|i: int|
            0 <= i < s.len() ==> #[trigger] lower(s)[i] as u32 == if 65 <= s[i] as u32 <= 90 {
                s[i] as u32 + 32
            } else {
                s[i] as int
            },
{
}

/// A text stands in another at a position exactly where the characters agree one by one.
pub proof fn law_occurs_at(s: Seq<char>, pat: Seq<char>, i: int)
    ensures
        occurs_at(s, pat, i) <==> {
            &&& 0 <= i
            &&& i + pat.len() <= s.len()
            &&& forall|j: int| 0 <= j < pat.len() ==> s[i + j] == #[trigger] pat[j]
        },
        begins_with(s, pat) <==> occurs_at(s, pat, 0),
        contains(s, pat) <==> exists|k: int| occurs_at(s, pat, k),
{
    if 0 <= i && i + pat.len() <= s.len() {
        let part = s.subrange(i, i + pat.len());
        if part == pat {
            assert forall|j: int| 0 <= j < pat.len() implies s[i + j] == #[trigger] pat[j] by {
                assert(part[j] == s[i + j]);
            }
        }
        if forall|j: int| 0 <= j < pat.len() ==> s[i + j] == #[trigger] pat[j] {
            assert(part =~= pat);
        }
    }
}

/// Splitting loses nothing: no piece holds the separator, and joined with it the pieces are the
/// text again.
pub proof fn law_split(s: Seq<char>, sep: char)
    ensures
        split(s, sep).len() > 0,
        forall|n: int|
            0 <= n < split(s, sep).len() ==> !(#[trigger] split(s, sep)[n]).contains(sep),
        joined(split(s, sep), seq![sep]) == s,
    decreases s.len(),
{
    if s.len() == 0 {
        assert(s =~= Seq::empty());
    } else {
        let front = s.drop_last();
        let before = split(front, sep);
        let now = split(s, sep);
        law_split(front, sep);
        assert forall|n: int| 0 <= n < now.len() implies !(#[trigger] now[n]).contains(sep) by {
            if n < before.len() - 1 {
                assert(now[n] == before[n]);
            } else if n == before.len() - 1 {
                assert(!before[n].contains(sep));
                if s.last() == sep {
                    assert(now[n] == before[n]);
                } else {
                    let last = before.last().push(s.last());
                    assert forall|k: int| 0 <= k < last.len() implies last[k] != sep by {
                        if k < before.last().len() {
                            assert(before.last().contains(before.last()[k]));
                        }
                    }
                }
            }
        }
        if s.last() == sep {
            assert(now.drop_last() =~= before);
            assert(joined(now, seq![sep]) =~= joined(before, seq![sep]) + seq![sep]);
            assert(s =~= front.push(sep));
        } else {
            lemma_joined_longer(before, s.last(), seq![sep]);
            assert(s =~= front.push(s.last()));
        }
    }
}

/// Texts without the separator, joined with it, are the pieces of what they make.
pub proof fn law_split_joined(parts: Seq<Seq<char>>, sep: char)
    requires
        parts.len() > 0,
        forall|i: int| 0 <= i < parts.len() ==> !(#[trigger] parts[i]).contains(sep),
    ensures
        split(joined(parts, seq![sep]), sep) == parts,
    decreases parts.len(), parts.last().len(),
{
    let last = parts.last();
    let whole = joined(parts, seq![sep]);
    if last.len() > 0 {
        let shorter = parts.drop_last().push(last.drop_last());
        assert(shorter.drop_last() =~= parts.drop_last());
        assert forall|i: int| 0 <= i < shorter.len() implies !(#[trigger] shorter[i]).contains(
            sep,
        ) by {
            if i < parts.len() - 1 {
                assert(shorter[i] == parts[i]);
            } else {
                assert(!parts[i].contains(sep));
                assert forall|k: int| 0 <= k < shorter[i].len() implies shorter[i][k] != sep by {
                    assert(parts[i].contains(parts[i][k]));
                }
            }
        }
        law_split_joined(shorter, sep);
        lemma_joined_longer(shorter, last.last(), seq![sep]);
        assert(last.drop_last().push(last.last()) =~= last);
        assert(parts.drop_last().push(last) =~= parts);
        assert(whole.drop_last() =~= joined(shorter, seq![sep]));
        assert(!parts[parts.len() - 1].contains(sep));
        assert(last.contains(last[last.len() - 1]));
        assert(whole.last() == last.last());
        assert(split(whole, sep) =~= parts);
    } else if parts.len() > 1 {
        let front = parts.drop_last();
        assert forall|i: int| 0 <= i < front.len() implies !(#[trigger] front[i]).contains(sep) by {
            assert(front[i] == parts[i]);
        }
        law_split_joined(front, sep);
        assert(whole =~= joined(front, seq![sep]).push(sep));
        assert(whole.drop_last() =~= joined(front, seq![sep]));
        assert(last =~= Seq::empty());
        assert(split(whole, sep) =~= parts);
    } else {
        assert(whole == parts[0]);
        assert(parts[0] =~= Seq::empty());
        assert(split(whole, sep) =~= parts);
    }
}

/// A longer last text makes what is joined longer.
proof fn lemma_joined_longer(parts: Seq<Seq<char>>, c: char, sep: Seq<char>)
    requires
        parts.len() > 0,
    ensures
        joined(parts.drop_last().push(parts.last().push(c)), sep) == joined(parts, sep).push(c),
{
    let longer = parts.drop_last().push(parts.last().push(c));
    assert(longer.drop_last() =~= parts.drop_last());
    if parts.len() == 1 {
        assert(longer[0] == parts[0].push(c));
    } else {
        assert(joined(longer, sep) =~= joined(parts, sep).push(c));
    }
}

/// The piece with a number is the one that stands there, counted from zero; there is none beyond
/// the last.
pub proof fn law_piece(s: Seq<char>, sep: char, n: int)
    ensures
        piece(s, sep, n) is Some <==> 0 <= n < split(s, sep).len(),
        piece(s, sep, n) matches Some(text) ==> text == split(s, sep)[n],
        piece(s, sep, 0) matches Some(text) ==> text.len() <= s.len() && s.take(text.len() as int)
            == text && (text.len() < s.len() ==> s[text.len() as int] == sep),
{
    law_split(s, sep);
    lemma_first_piece(s, sep);
}

proof fn lemma_first_piece(s: Seq<char>, sep: char)
    ensures
        split(s, sep).len() > 0,
        split(s, sep)[0].len() <= s.len(),
        s.take(split(s, sep)[0].len() as int) == split(s, sep)[0],
        split(s, sep)[0].len() < s.len() ==> s[split(s, sep)[0].len() as int] == sep,
        split(s, sep).len() == 1 ==> split(s, sep)[0] == s,
        split(s, sep).len() > 1 ==> split(s, sep)[0].len() < s.len(),
    decreases s.len(),
{
    if s.len() == 0 {
        assert(s =~= Seq::empty());
        assert(s.take(0) =~= Seq::empty());
    } else {
        let front = s.drop_last();
        lemma_first_piece(front, sep);
        let first = split(front, sep)[0];
        if split(front, sep).len() == 1 && s.last() != sep {
            assert(split(s, sep)[0] == first.push(s.last()));
            assert(first.push(s.last()) =~= s);
            assert(s.take(s.len() as int) =~= s);
        } else {
            assert(split(s, sep)[0] == first);
            assert(s.take(first.len() as int) =~= front.take(first.len() as int));
            if first.len() < front.len() {
                assert(front[first.len() as int] == s[first.len() as int]);
            }
        }
    }
}

/// Split at the last of a character, a text gives what stands before and behind it; put together
/// again they are the text, and the character does not stand behind it once more.
pub proof fn law_split_last(s: Seq<char>, c: char)
    ensures
        split_last(s, c) is None <==> !s.contains(c),
        split_last(s, c) matches Some(parts) ==> parts.0 + seq![c] + parts.1 == s
            && !parts.1.contains(c),
{
    lemma_last_at(s, c);
    if let Some(i) = last_at(s, c) {
        assert(s.take(i) + seq![c] + s.skip(i + 1) =~= s);
        assert(s.contains(s[i]));
        let after = s.skip(i + 1);
        assert forall|k: int| 0 <= k < after.len() implies after[k] != c by {
            assert(after[k] == s[i + 1 + k]);
        }
    }
}

proof fn lemma_last_at(s: Seq<char>, c: char)
    ensures
        match last_at(s, c) {
            Some(i) => 0 <= i < s.len() && s[i] == c && forall|j: int|
                i < j < s.len() ==> #[trigger] s[j] != c,
            None => forall|j: int| 0 <= j < s.len() ==> #[trigger] s[j] != c,
        },
    decreases s.len(),
{
    if s.len() > 0 && s.last() != c {
        let front = s.drop_last();
        lemma_last_at(front, c);
        assert forall|j: int| 0 <= j < front.len() implies front[j] == #[trigger] s[j] by {}
    }
}

/// Removing a text takes its first place out, and then those in what stands behind it; where it
/// stands nowhere, nothing changes.
pub proof fn law_without(s: Seq<char>, pat: Seq<char>)
    requires
        pat.len() > 0,
    ensures
        match find_from(s, pat, 0) {
            Some(i) => without(s, pat) == s.take(i) + without(s.skip(i + pat.len()), pat),
            None => without(s, pat) == s,
        },
    decreases s.len(),
{
    lemma_find_from(s, pat, 0);
    if s.len() < pat.len() {
    } else if begins_with(s, pat) {
        assert(find_from(s, pat, 0) == Some(0int));
        assert(s.take(0) + without(s.skip(pat.len() as int), pat) =~= without(
            s.skip(pat.len() as int),
            pat,
        ));
    } else {
        let rest = s.drop_first();
        law_without(rest, pat);
        lemma_find_from(rest, pat, 0);
        assert forall|j: int| 0 <= j implies occurs_at(rest, pat, j) == occurs_at(s, pat, j + 1) by {
            if j + pat.len() <= rest.len() {
                assert(rest.subrange(j, j + pat.len()) =~= s.subrange(j + 1, j + 1 + pat.len()));
            }
        }
        match find_from(rest, pat, 0) {
            Some(i) => {
                assert(occurs_at(s, pat, i + 1));
                match find_from(s, pat, 0) {
                    Some(k) => {
                        assert(k > 0);
                        assert(occurs_at(rest, pat, k - 1));
                        assert(k == i + 1) by {
                            if k - 1 < i {
                                assert(!occurs_at(rest, pat, k - 1));
                            }
                        }
                    },
                    None => {
                        assert(!occurs_at(s, pat, i + 1));
                    },
                }
                assert(rest.skip(i + pat.len()) =~= s.skip(i + 1 + pat.len()));
                assert(seq![s[0]] + (rest.take(i) + without(rest.skip(i + pat.len()), pat))
                    =~= s.take(i + 1) + without(s.skip(i + 1 + pat.len()), pat));
            },
            None => {
                if let Some(k) = find_from(s, pat, 0) {
                    assert(occurs_at(rest, pat, k - 1));
                }
                assert(seq![s[0]] + rest =~= s);
            },
        }
    }
}

/// Nothing is removed with an empty text.
pub proof fn law_without_nothing(s: Seq<char>)
    ensures
        without(s, Seq::empty()) == s,
{
}

/// Texts are joined in order, with the separator between two of them and nowhere else.
pub proof fn law_joined(first: Seq<char>, rest: Seq<Seq<char>>, sep: Seq<char>)
    ensures
        joined(Seq::empty(), sep) == Seq::<char>::empty(),
        joined(seq![first], sep) == first,
        rest.len() > 0 ==> joined(seq![first] + rest, sep) == first + sep + joined(rest, sep),
    decreases rest.len(),
{
    if rest.len() == 1 {
        let two = seq![first] + rest;
        assert(two.drop_last() =~= seq![first]);
        assert(joined(seq![first], sep) == first);
        assert(joined(rest, sep) == two.last());
        assert(joined(two, sep) =~= first + sep + joined(rest, sep));
    } else if rest.len() > 1 {
        let all = seq![first] + rest;
        law_joined(first, rest.drop_last(), sep);
        assert(all.drop_last() =~= seq![first] + rest.drop_last());
        assert(joined(all, sep) =~= first + sep + joined(rest, sep));
    }
}

/// The order of texts goes by the first character in which they differ; a text stands before those
/// that it begins.
pub proof fn law_order(common: Seq<char>, x: char, y: char, a: Seq<char>, b: Seq<char>)
    ensures
        x != y ==> (not_after(common + seq![x] + a, common + seq![y] + b) <==> x < y),
        not_after(common, common + a),
        a.len() > 0 ==> !not_after(common + a, common),
    decreases common.len(),
{
    let p = common + seq![x] + a;
    let q = common + seq![y] + b;
    if common.len() == 0 {
        assert(p[0] == x && q[0] == y);
    } else {
        let rest = common.drop_first();
        law_order(rest, x, y, a, b);
        assert(p.drop_first() =~= rest + seq![x] + a);
        assert(q.drop_first() =~= rest + seq![y] + b);
        assert((common + a).drop_first() =~= rest + a);
    }
}

/// The number that decimal digits stand for.
pub open spec fn digits_value(s: Seq<char>) -> int
    decreases s.len(),
{
    if s.len() == 0 {
        0
    } else {
        10 * digits_value(s.drop_last()) + (s.last() as int - 48)
    }
}

/// Decimal notation stands for the number: it holds digits only, without a needless zero before
/// them, and a sign where the number is negative.
pub proof fn law_decimal(n: int)
    ensures
        n >= 0 ==> digits_value(decimal(n)) == n,
        n >= 0 ==> decimal(n).len() > 0 && forall|i: int|
            0 <= i < decimal(n).len() ==> 48 <= #[trigger] decimal(n)[i] as int <= 57,
        n > 0 ==> decimal(n)[0] as int != 48,
        n < 0 ==> decimal(n) == seq!['-'] + decimal(-n),
        n == 0 ==> decimal(n).len() == 1,
        0 <= n < 10 ==> decimal(n) == seq![(48 + n) as char],
        n >= 10 ==> decimal(n) == decimal(n / 10) + decimal(n % 10),
{
    if n >= 10 {
        assert(digits(n as nat) == digits((n / 10) as nat).push(digit((n % 10) as nat)));
        assert(decimal(n % 10) == seq![digit((n % 10) as nat)]);
        assert(decimal(n) =~= decimal(n / 10) + decimal(n % 10));
    }
    if n >= 0 {
        lemma_digits_value(n as nat);
    }
}

proof fn lemma_digits_value(n: nat)
    ensures
        digits_value(digits(n)) == n,
        digits(n).len() > 0,
        forall|i: int| 0 <= i < digits(n).len() ==> 48 <= #[trigger] digits(n)[i] as int <= 57,
        n > 0 ==> digits(n)[0] as int != 48,
        n < 10 ==> digits(n).len() == 1,
    decreases n,
{
    if n < 10 {
        assert(digits(n) == seq![digit(n)]);
        assert(digit(n) as u32 == 48 + n);
        assert(digits(n).drop_last() =~= Seq::empty());
        assert(digits_value(digits(n).drop_last()) == 0);
    } else {
        lemma_digits_value(n / 10);
        let front = digits(n / 10);
        assert(digits(n) == front.push(digit(n % 10)));
        assert(digit(n % 10) as u32 == 48 + n % 10);
        assert(digits(n).drop_last() =~= front);
        assert forall|i: int| 0 <= i < digits(n).len() implies 48 <= #[trigger] digits(
            n,
        )[i] as int <= 57 by {
            if i < front.len() {
                assert(digits(n)[i] == front[i]);
            }
        }
        assert(digits(n)[0] == front[0]);
    }
}

/// What is there stays, and what is missing becomes the other text.
pub proof fn law_or_text(text: Seq<char>, other: Seq<char>)
    ensures
        or_text(Some(text), other) == text,
        or_text(None, other) == other,
{
}

/// Each text of a list is trimmed, in its place.
pub proof fn law_trimmed_all(list: Seq<Seq<char>>)
    ensures
        trimmed_all(list).len() == list.len(),
        forall|i: int| 0 <= i < list.len() ==> #[trigger] trimmed_all(list)[i] == trimmed(list[i]),
{
}

/// What is there stands for what it holds, and what is missing for nothing.
pub proof fn law_view_opt<T: View>(value: T)
    ensures
        view_opt(Some(value)) == Some(value@),
        view_opt(None::<T>) is None,
{
}

/// What is looked for from a position on is found where it stands first, not before that position;
/// nothing is found only where it stands nowhere from there on.
pub proof fn law_find_from(s: Seq<char>, pat: Seq<char>, from: int)
    requires
        0 <= from,
    ensures
        find_from(s, pat, from) matches Some(i) ==> from <= i && occurs_at(s, pat, i) && forall|
            j: int,
        | from <= j < i ==> !occurs_at(s, pat, j),
        find_from(s, pat, from) is None ==> forall|j: int| from <= j ==> !occurs_at(s, pat, j),
{
    lemma_find_from(s, pat, from);
}

} // verus!
