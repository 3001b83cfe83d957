//! Operations on text, stated over sequences of characters.

use vstd::prelude::*;

verus! {

/// `String::push` appends the character to the end of the string.
pub assume_specification[ String::push ](s: &mut String, c: char)
    ensures
        final(s)@ == old(s)@.push(c),
;

/// Whether `a` and `b` hold the same characters.
pub fn same(a: &str, b: &str) -> (r: bool)
    ensures
        r == (a@ == b@),
{
    a.to_string() == b.to_string()
}

/// The characters of `s`, in order.
pub fn chars_of(s: &str) -> (v: Vec<char>)
    ensures
        v@ == s@,
{
    let mut v: Vec<char> = Vec::new();
    for c in it: s.chars()
        invariant
            it.seq() == s@,
            v@ == s@.take(it.index() as int),
    {
        v.push(c);
    }
    assert(s@.take(s@.len() as int) == s@);
    v
}

/// The string that holds the characters of `v` from `from` up to, but not
/// including, `to`.
pub fn string_of(v: &Vec<char>, from: usize, to: usize) -> (s: String)
    requires
        from <= to <= v@.len(),
    ensures
        s@ == v@.subrange(from as int, to as int),
{
    let mut s = String::new();
    let mut i: usize = from;
    while i < to
        invariant
            from <= i <= to <= v@.len(),
            s@ == v@.subrange(from as int, i as int),
        decreases to - i,
    {
        s.push(v[i]);
        i += 1;
    }
    s
}

/// The two texts, one after the other.
pub fn concat2(a: &str, b: &str) -> (r: String)
    ensures
        r@ == a@ + b@,
{
    let mut r = a.to_string();
    r.append(b);
    r
}

/// The three texts, one after the other.
pub fn concat3(a: &str, b: &str, c: &str) -> (r: String)
    ensures
        r@ == a@ + b@ + c@,
{
    let mut r = a.to_string();
    r.append(b);
    r.append(c);
    r
}

/// The Unicode property `White_Space`.
pub open spec fn is_space(c: char) -> bool {
    ||| '\u{9}' <= c <= '\u{d}'
    ||| c == ' '
    ||| c == '\u{85}'
    ||| c == '\u{a0}'
    ||| c == '\u{1680}'
    ||| '\u{2000}' <= c <= '\u{200a}'
    ||| c == '\u{2028}'
    ||| c == '\u{2029}'
    ||| c == '\u{202f}'
    ||| c == '\u{205f}'
    ||| c == '\u{3000}'
}

/// Whether `c` is white space.
pub fn char_is_space(c: char) -> (r: bool)
    ensures
        r == is_space(c),
{
    ('\u{9}' <= c && c <= '\u{d}') || c == ' ' || c == '\u{85}' || c == '\u{a0}' || c == '\u{1680}'
        || ('\u{2000}' <= c && c <= '\u{200a}') || c == '\u{2028}' || c == '\u{2029}' || c
        == '\u{202f}' || c == '\u{205f}' || c == '\u{3000}'
}

/// `s` without its leading white space.
pub open spec fn trim_start(s: Seq<char>) -> Seq<char>
    decreases s.len(),
{
    if s.len() > 0 && is_space(s[0]) {
        trim_start(s.drop_first())
    } else {
        s
    }
}

/// `s` without its trailing white space.
pub open spec fn trim_end(s: Seq<char>) -> Seq<char>
    decreases s.len(),
{
    if s.len() > 0 && is_space(s.last()) {
        trim_end(s.drop_last())
    } else {
        s
    }
}

/// `s` without the white space at its two ends.
pub open spec fn trimmed(s: Seq<char>) -> Seq<char> {
    trim_end(trim_start(s))
}

/// The part of `v` from `from` up to `to`, without the white space at its ends.
pub fn trim_range(v: &Vec<char>, from: usize, to: usize) -> (r: String)
    requires
        from <= to <= v@.len(),
    ensures
        r@ == trimmed(v@.subrange(from as int, to as int)),
{
    let ghost whole = v@.subrange(from as int, to as int);
    let mut lo: usize = from;
    while lo < to && char_is_space(v[lo])
        invariant
            from <= lo <= to <= v@.len(),
            trim_start(v@.subrange(lo as int, to as int)) == trim_start(whole),
        decreases to - lo,
    {
        assert(v@.subrange(lo as int, to as int).drop_first() == v@.subrange(lo + 1, to as int));
        lo += 1;
    }
    assert(trim_start(whole) == v@.subrange(lo as int, to as int));
    let mut hi: usize = to;
    while lo < hi && char_is_space(v[hi - 1])
        invariant
            lo <= hi <= to <= v@.len(),
            trim_end(v@.subrange(lo as int, hi as int)) == trim_end(
                v@.subrange(lo as int, to as int),
            ),
        decreases hi - lo,
    {
        assert(v@.subrange(lo as int, hi as int).drop_last() == v@.subrange(lo as int, hi - 1));
        hi -= 1;
    }
    string_of(v, lo, hi)
}

/// `s` without the white space at its two ends.
pub fn trim(s: &str) -> (r: String)
    ensures
        r@ == trimmed(s@),
{
    let v = chars_of(s);
    assert(v@.subrange(0, v@.len() as int) == v@);
    trim_range(&v, 0, v.len())
}

/// The characters of `s` up to the first white space.
pub open spec fn until_space(s: Seq<char>) -> Seq<char>
    decreases s.len(),
{
    if s.len() == 0 || is_space(s[0]) {
        Seq::empty()
    } else {
        seq![s[0]] + until_space(s.drop_first())
    }
}

/// The first word of `s`; empty if there is none.
pub open spec fn first_word(s: Seq<char>) -> Seq<char> {
    until_space(trim_start(s))
}

/// A word with white space behind it is the first word of the two.
pub proof fn lemma_first_word(word: Seq<char>, rest: Seq<char>)
    requires
        word.len() > 0,
        forall|k: int| 0 <= k < word.len() ==> !is_space(#[trigger] word[k]),
        rest.len() > 0 ==> is_space(rest[0]),
    ensures
        first_word(word + rest) == word,
{
    assert(!is_space((word + rest)[0])) by {
        assert((word + rest)[0] == word[0]);
    }
    lemma_until_space(word, rest);
}

proof fn lemma_until_space(word: Seq<char>, rest: Seq<char>)
    requires
        forall|k: int| 0 <= k < word.len() ==> !is_space(#[trigger] word[k]),
        rest.len() > 0 ==> is_space(rest[0]),
    ensures
        until_space(word + rest) == word,
    decreases word.len(),
{
    if word.len() == 0 {
        assert(word + rest == rest);
    } else {
        let tail = word.drop_first();
        assert forall|k: int| 0 <= k < tail.len() implies !is_space(#[trigger] tail[k]) by {
            assert(tail[k] == word[k + 1]);
        }
        lemma_until_space(tail, rest);
        assert((word + rest).drop_first() == tail + rest);
        assert((word + rest)[0] == word[0]);
        assert(seq![word[0]] + tail == word);
    }
}

/// The first word of `s`; empty if there is none.
pub fn first_word_of(s: &str) -> (r: String)
    ensures
        r@ == first_word(s@),
{
    let v = chars_of(s);
    let n: usize = v.len();
    let mut lo: usize = 0;
    assert(v@.skip(0) == s@);
    while lo < n && char_is_space(v[lo])
        invariant
            lo <= n == v@.len(),
            trim_start(v@.skip(lo as int)) == trim_start(s@),
        decreases n - lo,
    {
        assert(v@.skip(lo as int).drop_first() == v@.skip(lo + 1));
        lo += 1;
    }
    assert(trim_start(s@) == v@.skip(lo as int));
    let mut hi: usize = lo;
    assert(v@.subrange(lo as int, lo as int) == Seq::<char>::empty());
    while hi < n && !char_is_space(v[hi])
        invariant
            lo <= hi <= n == v@.len(),
            until_space(v@.skip(lo as int)) == v@.subrange(lo as int, hi as int) + until_space(
                v@.skip(hi as int),
            ),
        decreases n - hi,
    {
        assert(v@.skip(hi as int).drop_first() == v@.skip(hi + 1));
        assert(v@.subrange(lo as int, hi as int) + (seq![v@[hi as int]] + until_space(
            v@.skip(hi + 1),
        )) == v@.subrange(lo as int, hi + 1) + until_space(v@.skip(hi + 1)));
        hi += 1;
    }
    assert(until_space(v@.skip(lo as int)) == v@.subrange(lo as int, hi as int));
    string_of(&v, lo, hi)
}

/// Whether `p` stands in `s` at position `i`.
pub open spec fn occurs_at(s: Seq<char>, p: Seq<char>, i: int) -> bool {
    0 <= i && i + p.len() <= s.len() && s.subrange(i, i + p.len()) == p
}

/// Whether `p` stands anywhere in `s`.
pub open spec fn contains(s: Seq<char>, p: Seq<char>) -> bool {
    exists|i: int| #[trigger] occurs_at(s, p, i)
}

/// A text stands where it was put.
pub proof fn lemma_contains_part(before: Seq<char>, part: Seq<char>, behind: Seq<char>)
    ensures
        contains(before + part + behind, part),
{
    let all = before + part + behind;
    let at = before.len() as int;
    assert(all.subrange(at, at + part.len()) =~= part);
    assert(occurs_at(all, part, at));
}

/// Whether the parts from the `k`th on stand in `s`, from `from` on, one behind
/// another.
pub open spec fn in_order(s: Seq<char>, parts: Seq<Seq<char>>, k: int, from: int) -> bool
    decreases parts.len() - k,
{
    k >= parts.len() || exists|i: int|
        {
            &&& from <= i
            &&& #[trigger] occurs_at(s, parts[k], i)
            &&& in_order(s, parts, k + 1, (i + parts[k].len()) as int)
        }
}

/// Whether `s` holds all of the parts, one behind another.
pub open spec fn holds_in_order(s: Seq<char>, parts: Seq<Seq<char>>) -> bool {
    in_order(s, parts, 0, 0)
}

/// A part that stands before the others do.
pub proof fn lemma_part_first(
    s: Seq<char>,
    parts: Seq<Seq<char>>,
    k: int,
    from: int,
    i: int,
)
    requires
        0 <= k < parts.len(),
        from <= i,
        occurs_at(s, parts[k], i),
        in_order(s, parts, k + 1, (i + parts[k].len()) as int),
    ensures
        in_order(s, parts, k, from),
{
}

/// What stands in a text in order also does so where that text is part of another.
pub proof fn lemma_in_order_inside(
    before: Seq<char>,
    s: Seq<char>,
    behind: Seq<char>,
    parts: Seq<Seq<char>>,
    k: int,
    from: int,
)
    requires
        0 <= k,
        in_order(s, parts, k, from),
    ensures
        in_order(before + s + behind, parts, k, (before.len() + from) as int),
    decreases parts.len() - k,
{
    if k < parts.len() {
        let i = choose|i: int|
            {
                &&& from <= i
                &&& #[trigger] occurs_at(s, parts[k], i)
                &&& in_order(s, parts, k + 1, (i + parts[k].len()) as int)
            };
        let all = before + s + behind;
        let at = (before.len() + i) as int;
        assert(all.subrange(at, at + parts[k].len()) =~= s.subrange(i, i + parts[k].len()));
        lemma_in_order_inside(before, s, behind, parts, k + 1, (i + parts[k].len()) as int);
        lemma_part_first(all, parts, k, (before.len() + from) as int, at);
    }
}

/// What stands in order from some place on also does so from an earlier one.
pub proof fn lemma_in_order_earlier(
    s: Seq<char>,
    parts: Seq<Seq<char>>,
    k: int,
    from: int,
    earlier: int,
)
    requires
        in_order(s, parts, k, from),
        earlier <= from,
    ensures
        in_order(s, parts, k, earlier),
{
}

/// Texts that follow one another hold the parts of the one and then those of the
/// other.
pub proof fn lemma_in_order_both(
    s: Seq<char>,
    t: Seq<char>,
    a: Seq<Seq<char>>,
    b: Seq<Seq<char>>,
)
    requires
        holds_in_order(s, a),
        holds_in_order(t, b),
    ensures
        holds_in_order(s + t, a + b),
{
    lemma_in_order_chain(s, t, a, b, 0, 0);
}

proof fn lemma_in_order_chain(
    s: Seq<char>,
    t: Seq<char>,
    a: Seq<Seq<char>>,
    b: Seq<Seq<char>>,
    k: int,
    from: int,
)
    requires
        0 <= k <= a.len(),
        0 <= from <= s.len(),
        in_order(s, a, k, from),
        holds_in_order(t, b),
    ensures
        in_order(s + t, a + b, k, from),
    decreases a.len() - k,
{
    if k < a.len() {
        let i = choose|i: int|
            {
                &&& from <= i
                &&& #[trigger] occurs_at(s, a[k], i)
                &&& in_order(s, a, k + 1, (i + a[k].len()) as int)
            };
        assert((a + b)[k] == a[k]);
        assert((s + t).subrange(i, i + a[k].len()) =~= s.subrange(i, i + a[k].len()));
        lemma_in_order_chain(s, t, a, b, k + 1, (i + a[k].len()) as int);
        lemma_part_first(s + t, a + b, k, from, i);
    } else {
        lemma_in_order_inside(s, t, Seq::empty(), b, 0, 0);
        assert(s + t + Seq::<char>::empty() =~= s + t);
        lemma_in_order_shift(s + t, a, b, 0, s.len() as int);
        lemma_in_order_earlier(s + t, a + b, a.len() as int, s.len() as int, from);
    }
}

proof fn lemma_in_order_shift(
    s: Seq<char>,
    a: Seq<Seq<char>>,
    b: Seq<Seq<char>>,
    k: int,
    from: int,
)
    requires
        0 <= k,
        in_order(s, b, k, from),
    ensures
        in_order(s, a + b, a.len() + k, from),
    decreases b.len() - k,
{
    if k < b.len() {
        let i = choose|i: int|
            {
                &&& from <= i
                &&& #[trigger] occurs_at(s, b[k], i)
                &&& in_order(s, b, k + 1, (i + b[k].len()) as int)
            };
        assert((a + b)[a.len() + k] == b[k]);
        lemma_in_order_shift(s, a, b, k + 1, (i + b[k].len()) as int);
        lemma_part_first(s, a + b, a.len() + k, from, i);
    }
}

/// Whether `s` begins with `p`.
pub open spec fn starts_with(s: Seq<char>, p: Seq<char>) -> bool {
    occurs_at(s, p, 0)
}

/// The first position at or after `from` at which `p` stands in `s`.
pub open spec fn find(s: Seq<char>, p: Seq<char>, from: int) -> Option<int>
    decreases s.len() - from + 1,
{
    if from < 0 || from + p.len() > s.len() {
        None
    } else if occurs_at(s, p, from) {
        Some(from)
    } else {
        find(s, p, from + 1)
    }
}

/// A position that `find` gives holds the pattern and is the first that does.
/// Where it gives none, the pattern stands nowhere after `from`.
pub proof fn lemma_find(s: Seq<char>, p: Seq<char>, from: int)
    requires
        0 <= from,
    ensures
        match find(s, p, from) {
            Some(i) => {
                &&& from <= i
                &&& occurs_at(s, p, i)
                &&& forall|j: int| from <= j < i ==> !#[trigger] occurs_at(s, p, j)
            },
            None => forall|j: int| from <= j ==> !#[trigger] occurs_at(s, p, j),
        },
    decreases s.len() - from + 1,
{
    if from + p.len() <= s.len() && !occurs_at(s, p, from) {
        lemma_find(s, p, from + 1);
    }
}

/// Whether `p` stands in `v` at position `i`.
pub fn matches_at(v: &Vec<char>, p: &Vec<char>, i: usize) -> (r: bool)
    ensures
        r == occurs_at(v@, p@, i as int),
{
    if i > v.len() || p.len() > v.len() - i {
        return false;
    }
    let mut k: usize = 0;
    assert(i + p.len() <= v.len());
    while k < p.len()
        invariant
            v@.len() <= usize::MAX,
            i + p@.len() <= v@.len(),
            k <= p@.len(),
            forall|j: int| 0 <= j < k ==> v@[i + j] == p@[j],
        decreases p@.len() - k,
    {
        if v[i + k] != p[k] {
            assert(v@.subrange(i as int, i + p@.len())[k as int] != p@[k as int]);
            return false;
        }
        k += 1;
    }
    assert(v@.subrange(i as int, i + p@.len()) == p@);
    true
}

/// The first position at or after `from` at which `p` stands in `v`.
pub fn find_from(v: &Vec<char>, p: &Vec<char>, from: usize) -> (r: Option<usize>)
    ensures
        match r {
            Some(i) => find(v@, p@, from as int) == Some(i as int),
            None => find(v@, p@, from as int) is None,
        },
{
    let mut i: usize = from;
    while i <= v.len() && p.len() <= v.len() - i
        invariant
            from <= i,
            i <= v@.len() + 1 || i == from,
            find(v@, p@, from as int) == find(v@, p@, i as int),
        decreases v@.len() + 1 - i,
    {
        if matches_at(v, p, i) {
            return Some(i);
        }
        if i == v.len() {
            assert(find(v@, p@, i + 1) is None);
            return None;
        }
        i += 1;
    }
    None
}

/// Whether `p` stands anywhere in `s`.
pub fn text_contains(s: &str, p: &str) -> (r: bool)
    ensures
        r == contains(s@, p@),
{
    let v = chars_of(s);
    let q = chars_of(p);
    proof {
        lemma_find(s@, p@, 0);
    }
    match find_from(&v, &q, 0) {
        Some(_) => true,
        None => false,
    }
}

/// Whether `s` begins with `p`.
pub fn text_starts_with(s: &str, p: &str) -> (r: bool)
    ensures
        r == starts_with(s@, p@),
{
    matches_at(&chars_of(s), &chars_of(p), 0)
}

/// The second of the pieces into which `sep` parts `s`, where there is one.
pub open spec fn second_piece(s: Seq<char>, sep: Seq<char>) -> Option<Seq<char>> {
    match find(s, sep, 0) {
        None => None,
        Some(i) => match find(s, sep, i + sep.len()) {
            None => Some(s.skip(i + sep.len())),
            Some(j) => Some(s.subrange(i + sep.len(), j)),
        },
    }
}

/// The characters of `s`, with `to` in the place of each `from`.
pub open spec fn replaced(s: Seq<char>, from: char, to: char) -> Seq<char> {
    s.map_values(
        |c: char|
            if c == from {
                to
            } else {
                c
            },
    )
}

/// `s` with `to` in the place of each `from`.
pub fn replace_char(s: &str, from: char, to: char) -> (r: String)
    ensures
        r@ == replaced(s@, from, to),
{
    let v = chars_of(s);
    let mut r = String::new();
    let mut i: usize = 0;
    while i < v.len()
        invariant
            v@ == s@,
            i <= v@.len(),
            r@ == replaced(s@, from, to).take(i as int),
        decreases v@.len() - i,
    {
        r.push(
            if v[i] == from {
                to
            } else {
                v[i]
            },
        );
        i += 1;
    }
    assert(replaced(s@, from, to).take(s@.len() as int) == replaced(s@, from, to));
    r
}

/// The pieces between the occurrences of `c` in `s`.
pub open spec fn split_on(s: Seq<char>, c: char) -> Seq<Seq<char>>
    decreases s.len(),
{
    if s.len() == 0 {
        seq![s]
    } else {
        let head = split_on(s.drop_last(), c);
        if s.last() == c {
            head.push(Seq::empty())
        } else {
            head.drop_last().push(head.last().push(s.last()))
        }
    }
}

/// The lines of `s` that hold more than white space, each trimmed.
pub open spec fn filled_lines(s: Seq<char>) -> Seq<Seq<char>> {
    split_on(s, '\n').map_values(|l: Seq<char>| trimmed(l)).filter(|l: Seq<char>| l.len() > 0)
}

/// The text that an option holds.
pub open spec fn text_in(s: Option<String>) -> Option<Seq<char>> {
    match s {
        Some(t) => Some(t@),
        None => None,
    }
}

/// The texts that a list of strings holds.
pub open spec fn texts(v: Seq<String>) -> Seq<Seq<char>> {
    v.map_values(|s: String| s@)
}

/// The lines of `s` that hold more than white space, each trimmed.
pub fn lines_of(s: &str) -> (r: Vec<String>)
    ensures
        texts(r@) == filled_lines(s@),
{
    let v = chars_of(s);
    let ghost trim_one = |l: Seq<char>| trimmed(l);
    let ghost filled = |l: Seq<char>| l.len() > 0;
    let ghost mut done: Seq<Seq<char>> = Seq::empty();
    let mut r: Vec<String> = Vec::new();
    let mut start: usize = 0;
    let mut i: usize = 0;
    proof {
        reveal_with_fuel(Seq::filter, 2);
        assert(v@.take(0) == Seq::<char>::empty());
        assert(v@.subrange(0, 0) == Seq::<char>::empty());
        assert(split_on(v@.take(0), '\n') == done.push(v@.subrange(0, 0)));
        assert(done.map_values(trim_one) == done);
        assert(texts(r@) == done.map_values(trim_one).filter(filled));
    }
    loop
        invariant
            v@ == s@,
            start <= i <= v@.len(),
            trim_one == (|l: Seq<char>| trimmed(l)),
            filled == (|l: Seq<char>| l.len() > 0),
            split_on(v@.take(i as int), '\n') == done.push(v@.subrange(start as int, i as int)),
            texts(r@) == done.map_values(trim_one).filter(filled),
        decreases v@.len() - i,
    {
        if i == v.len() || v[i] == '\n' {
            let line = trim_range(&v, start, i);
            let ghost piece = v@.subrange(start as int, i as int);
            let ghost before = r@;
            let ghost longer = done.push(piece);
            proof {
                reveal_with_fuel(Seq::filter, 2);
                assert(longer.map_values(trim_one).drop_last() == done.map_values(trim_one));
                assert(longer.map_values(trim_one).last() == line@);
            }
            if line.as_str().is_empty() {
                assert(texts(r@) == longer.map_values(trim_one).filter(filled));
            } else {
                r.push(line);
                assert(texts(r@) == texts(before).push(line@));
                assert(texts(r@) == longer.map_values(trim_one).filter(filled));
            }
            if i == v.len() {
                assert(v@.take(i as int) == s@);
                return r;
            }
            proof {
                done = longer;
                assert(v@.take(i + 1).drop_last() == v@.take(i as int));
                assert(v@.subrange(i + 1, i + 1) == Seq::<char>::empty());
            }
            i += 1;
            start = i;
        } else {
            proof {
                assert(v@.take(i + 1).drop_last() == v@.take(i as int));
                let head = done.push(v@.subrange(start as int, i as int));
                assert(head.drop_last() == done);
                assert(head.last().push(v@[i as int]) == v@.subrange(start as int, i + 1));
            }
            i += 1;
        }
    }
}

/// The digit that stands for `d`, which is below ten.
pub open spec fn digit(d: nat) -> char {
    ('0' as nat + d) as char
}

/// The decimal notation of `n`.
pub open spec fn decimal(n: nat) -> Seq<char>
    decreases n,
{
    if n < 10 {
        seq![digit(n)]
    } else {
        decimal(n / 10).push(digit(n % 10))
    }
}

/// The decimal notation of `n`, with a sign where `n` is negative.
pub open spec fn signed_decimal(n: int) -> Seq<char> {
    if n < 0 {
        "-"@ + decimal((-n) as nat)
    } else {
        decimal(n as nat)
    }
}

/// The decimal notation of `n`.
pub fn decimal_of(n: u64) -> (r: String)
    ensures
        r@ == decimal(n as nat),
    decreases n,
{
    let mut r = if n < 10 {
        String::new()
    } else {
        decimal_of(n / 10)
    };
    let d: u8 = (n % 10) as u8;
    r.push((48 + d) as char);
    r
}

/// The decimal notation of `n`, with a sign where `n` is negative.
pub fn signed_decimal_of(n: i32) -> (r: String)
    ensures
        r@ == signed_decimal(n as int),
{
    if n < 0 {
        let mut r = "-".to_string();
        let size: u64 = (-(n as i64)) as u64;
        let digits = decimal_of(size);
        r.append(digits.as_str());
        r
    } else {
        decimal_of(n as u64)
    }
}

/// Whether a program that ended with this code did its work. One that a signal
/// ended has no code.
pub fn succeeded(code: Option<i32>) -> (r: bool)
    ensures
        r == (code == Some(0i32)),
{
    match code {
        Some(c) => c == 0,
        None => false,
    }
}

/// How the code with which a program ended is reported.
pub open spec fn exit_text(code: Option<i32>) -> Seq<char> {
    match code {
        Some(c) => "Some("@ + signed_decimal(c as int) + ")"@,
        None => "None"@,
    }
}

/// How the code with which a program ended is reported.
pub fn exit_text_of(code: Option<i32>) -> (r: String)
    ensures
        r@ == exit_text(code),
{
    match code {
        Some(c) => {
            let mut r = "Some(".to_string();
            r.append(signed_decimal_of(c).as_str());
            r.append(")");
            r
        },
        None => "None".to_string(),
    }
}

/// The texts in `parts`, with `sep` between each two that follow one another.
pub open spec fn joined(parts: Seq<Seq<char>>, sep: Seq<char>) -> Seq<char>
    decreases parts.len(),
{
    if parts.len() == 0 {
        Seq::empty()
    } else if parts.len() == 1 {
        parts[0]
    } else {
        joined(parts.drop_last(), sep) + sep + parts.last()
    }
}

/// The strings in `parts`, with `sep` between each two that follow one another.
pub fn join(parts: &Vec<String>, sep: &str) -> (r: String)
    ensures
        r@ == joined(texts(parts@), sep@),
{
    let mut r = String::new();
    let mut i: usize = 0;
    while i < parts.len()
        invariant
            i <= parts@.len(),
            r@ == joined(texts(parts@).take(i as int), sep@),
        decreases parts@.len() - i,
    {
        proof {
            assert(texts(parts@).take(i + 1).drop_last() == texts(parts@).take(i as int));
        }
        if i == 0 {
            r = parts[0].clone();
        } else {
            r.append(sep);
            r.append(parts[i].as_str());
        }
        i += 1;
    }
    assert(texts(parts@).take(parts@.len() as int) == texts(parts@));
    r
}

} // verus!
