//! How text is taken apart: trimming, splitting and the words of a line.

use vstd::prelude::*;
use vstd::slice::slice_subrange;
use vstd::string::*;

verus! {

/// `String::push` puts the character behind the text.
pub assume_specification[ String::push ](s: &mut String, c: char)
    ensures
        final(s)@ == old(s)@.push(c),
;

/// Whether `c` has the Unicode property `White_Space`.
pub open spec fn is_space(c: char) -> bool {
    ||| 0x09 <= c as u32 <= 0x0d
    ||| c as u32 == 0x20
    ||| c as u32 == 0x85
    ||| c as u32 == 0xa0
    ||| c as u32 == 0x1680
    ||| 0x2000 <= c as u32 <= 0x200a
    ||| c as u32 == 0x2028
    ||| c as u32 == 0x2029
    ||| c as u32 == 0x202f
    ||| c as u32 == 0x205f
    ||| c as u32 == 0x3000
}

/// Whether `c` has the Unicode property `White_Space`.
pub fn space(c: char) -> (r: bool)
    ensures
        r == is_space(c),
{
    let n: u32 = c as u32;
    (0x09 <= n && n <= 0x0d) || n == 0x20 || n == 0x85 || n == 0xa0 || n == 0x1680 || (0x2000 <= n
        && n <= 0x200a) || n == 0x2028 || n == 0x2029 || n == 0x202f || n == 0x205f || n == 0x3000
}

/// `s` without the white space at its start.
pub open spec fn trim_start(s: Seq<char>) -> Seq<char>
    decreases s.len(),
{
    if s.len() > 0 && is_space(s[0]) {
        trim_start(s.skip(1))
    } else {
        s
    }
}

/// `s` without the white space at its end.
pub open spec fn trim_end(s: Seq<char>) -> Seq<char>
    decreases s.len(),
{
    if s.len() > 0 && is_space(s.last()) {
        trim_end(s.drop_last())
    } else {
        s
    }
}

/// `s` without the white space at either end.
pub open spec fn trimmed(s: Seq<char>) -> Seq<char> {
    trim_end(trim_start(s))
}

/// The pieces of `s` between the occurrences of `sep`: one more than there are occurrences.
pub open spec fn pieces(s: Seq<char>, sep: char) -> Seq<Seq<char>>
    decreases s.len(),
{
    if s.len() == 0 {
        seq![Seq::<char>::empty()]
    } else {
        let before = pieces(s.drop_last(), sep);
        if s.last() == sep {
            before.push(Seq::<char>::empty())
        } else {
            before.drop_last().push(before.last().push(s.last()))
        }
    }
}

/// The words of `s`: its longest stretches without white space, in order.
pub open spec fn words(s: Seq<char>) -> Seq<Seq<char>>
    decreases s.len(),
{
    if s.len() == 0 {
        Seq::<Seq<char>>::empty()
    } else {
        let before = words(s.drop_last());
        if is_space(s.last()) {
            before
        } else if s.len() == 1 || is_space(s[s.len() - 2]) {
            before.push(seq![s.last()])
        } else {
            before.drop_last().push(before.last().push(s.last()))
        }
    }
}

/// The place of the first `c` in `s`, or the length of `s` where there is none.
pub open spec fn place_of(s: Seq<char>, c: char) -> int
    decreases s.len(),
{
    if s.len() == 0 || s[0] == c {
        0
    } else {
        1 + place_of(s.skip(1), c)
    }
}

/// What stands before and after the first `c` in `s`.
pub open spec fn cut(s: Seq<char>, c: char) -> Option<(Seq<char>, Seq<char>)> {
    if s.contains(c) {
        Some((s.take(place_of(s, c)), s.skip(place_of(s, c) + 1)))
    } else {
        None
    }
}

/// The texts that a vector of character vectors holds.
pub open spec fn texts(v: Seq<Vec<char>>) -> Seq<Seq<char>> {
    v.map_values(|x: Vec<char>| x@)
}

/// The characters of a text, where there is one.
pub open spec fn text_view(s: Option<String>) -> Option<Seq<char>> {
    match s {
        Some(s) => Some(s@),
        None => None,
    }
}

/// The characters of `s`.
pub fn characters(s: &str) -> (r: Vec<char>)
    ensures
        r@ == s@,
{
    let mut out: Vec<char> = Vec::new();
    for c in it: s.chars()
        invariant
            out@ == it.seq().take(it.index() as int),
            it.seq() == s@,
    {
        out.push(c);
        proof {
            assert(it.seq().take(it.index() + 1) == it.seq().take(it.index() as int).push(c));
        }
    }
    proof {
        assert(s@.take(s@.len() as int) == s@);
    }
    out
}

/// The text made of the characters `s`.
pub fn text_of(s: &[char]) -> (r: String)
    ensures
        r@ == s@,
{
    let mut out: String = String::new();
    let mut i: usize = 0;
    while i < s.len()
        invariant
            i <= s.len(),
            out@ == s@.take(i as int),
        decreases s.len() - i,
    {
        out.push(s[i]);
        proof {
            assert(s@.take(i + 1) =~= s@.take(i as int).push(s@[i as int]));
        }
        i += 1;
    }
    proof {
        assert(s@.take(s@.len() as int) =~= s@);
    }
    out
}

/// Whether two texts are the same.
pub fn same_text(a: &[char], b: &str) -> (r: bool)
    ensures
        r == (a@ == b@),
{
    let other: Vec<char> = characters(b);
    if a.len() != other.len() {
        return false;
    }
    let mut i: usize = 0;
    while i < a.len()
        invariant
            i <= a.len(),
            other@ == b@,
            a@.len() == b@.len(),
            forall|k: int| 0 <= k < i ==> a@[k] == b@[k],
        decreases a.len() - i,
    {
        if a[i] != other[i] {
            return false;
        }
        i += 1;
    }
    proof {
        assert(a@ =~= b@);
    }
    true
}

/// `s` without the white space at either end.
pub fn trim(s: &[char]) -> (r: &[char])
    ensures
        r@ == trimmed(s@),
{
    let mut i: usize = 0;
    proof {
        assert(s@.skip(0) == s@);
    }
    while i < s.len() && space(s[i])
        invariant
            i <= s.len(),
            trim_start(s@.skip(i as int)) == trim_start(s@),
        decreases s.len() - i,
    {
        proof {
            assert(s@.skip(i as int).skip(1) == s@.skip(i + 1));
        }
        i += 1;
    }
    let ghost started: Seq<char> = s@.skip(i as int);
    proof {
        assert(started == trim_start(s@));
        assert(started.take(s@.len() - i) == started);
    }
    let mut j: usize = s.len();
    while i < j && space(s[j - 1])
        invariant
            i <= j <= s.len(),
            started == s@.skip(i as int),
            trim_end(started.take(j - i)) == trim_end(started),
        decreases j - i,
    {
        proof {
            assert(started.take(j - i).drop_last() == started.take(j - 1 - i));
        }
        j -= 1;
    }
    let r = slice_subrange(s, i, j);
    proof {
        assert(r@ == started.take(j - i));
    }
    r
}

/// The pieces of `s` between the occurrences of `sep`.
pub fn split(s: &[char], sep: char) -> (r: Vec<Vec<char>>)
    ensures
        texts(r@) == pieces(s@, sep),
{
    let mut out: Vec<Vec<char>> = Vec::new();
    let mut piece: Vec<char> = Vec::new();
    let mut i: usize = 0;
    proof {
        assert(texts(out@).push(piece@) =~= pieces(s@.take(0), sep));
    }
    while i < s.len()
        invariant
            i <= s.len(),
            texts(out@).push(piece@) == pieces(s@.take(i as int), sep),
        decreases s.len() - i,
    {
        let ghost before = texts(out@).push(piece@);
        proof {
            assert(s@.take(i + 1).drop_last() == s@.take(i as int));
        }
        if s[i] == sep {
            out.push(piece);
            proof {
                assert(texts(out@) =~= before);
            }
            piece = Vec::new();
        } else {
            piece.push(s[i]);
            proof {
                assert(before.drop_last() =~= texts(out@));
            }
        }
        proof {
            assert(texts(out@).push(piece@) =~= pieces(s@.take(i + 1), sep));
        }
        i += 1;
    }
    let ghost before = texts(out@);
    out.push(piece);
    proof {
        assert(texts(out@) =~= before.push(piece@));
        assert(s@.take(s@.len() as int) == s@);
    }
    out
}

/// The words of `s`.
pub fn split_words(s: &[char]) -> (r: Vec<Vec<char>>)
    ensures
        texts(r@) == words(s@),
{
    let mut out: Vec<Vec<char>> = Vec::new();
    let mut word: Vec<char> = Vec::new();
    let mut i: usize = 0;
    proof {
        assert(texts(out@) =~= words(s@.take(0)));
    }
    while i < s.len()
        invariant
            i <= s.len(),
            word@.len() > 0 <==> (i > 0 && !is_space(s@[i - 1])),
            word@.len() == 0 ==> texts(out@) == words(s@.take(i as int)),
            word@.len() > 0 ==> texts(out@).push(word@) == words(s@.take(i as int)),
        decreases s.len() - i,
    {
        let ghost before = texts(out@);
        let ghost open = word@;
        proof {
            assert(s@.take(i + 1).drop_last() == s@.take(i as int));
        }
        if space(s[i]) {
            if word.len() > 0 {
                out.push(word);
                proof {
                    assert(texts(out@) =~= before.push(open));
                }
                word = Vec::new();
            }
        } else {
            word.push(s[i]);
            proof {
                assert(before.push(open).drop_last() =~= before);
                if open.len() == 0 {
                    assert(word@ =~= seq![s@[i as int]]);
                }
            }
        }
        i += 1;
    }
    proof {
        assert(s@.take(s@.len() as int) == s@);
    }
    if word.len() > 0 {
        let ghost before = texts(out@);
        let ghost open = word@;
        out.push(word);
        proof {
            assert(texts(out@) =~= before.push(open));
        }
    }
    out
}

/// What stands before and after the first `c` in `s`.
pub fn split_once(s: &[char], c: char) -> (r: Option<(&[char], &[char])>)
    ensures
        match r {
            Some((before, after)) => cut(s@, c) == Some((before@, after@)),
            None => cut(s@, c) is None,
        },
{
    let mut i: usize = 0;
    proof {
        assert(s@.skip(0) == s@);
    }
    while i < s.len() && s[i] != c
        invariant
            i <= s.len(),
            forall|k: int| 0 <= k < i ==> s@[k] != c,
            i + place_of(s@.skip(i as int), c) == place_of(s@, c),
        decreases s.len() - i,
    {
        proof {
            assert(s@.skip(i as int).skip(1) == s@.skip(i + 1));
        }
        i += 1;
    }
    if i < s.len() {
        proof {
            assert(s@.contains(c));
        }
        Some((slice_subrange(s, 0, i), slice_subrange(s, i + 1, s.len())))
    } else {
        None
    }
}

/// Splitting what a separator joins gives the pieces of both sides.
pub proof fn lemma_pieces_join(a: Seq<char>, sep: char, b: Seq<char>)
    ensures
        pieces(a.push(sep) + b, sep) == pieces(a, sep) + pieces(b, sep),
    decreases b.len(),
{
    let all = a.push(sep) + b;
    if b.len() == 0 {
        assert(all =~= a.push(sep));
        assert(all.drop_last() =~= a);
        assert(pieces(all, sep) =~= pieces(a, sep) + pieces(b, sep));
    } else {
        lemma_pieces_join(a, sep, b.drop_last());
        lemma_pieces_nonempty(b.drop_last(), sep);
        assert(all.drop_last() =~= a.push(sep) + b.drop_last());
        let left = pieces(a, sep);
        let right = pieces(b.drop_last(), sep);
        assert((left + right).last() == right.last());
        assert((left + right).drop_last() =~= left + right.drop_last());
        assert(pieces(all, sep) =~= pieces(a, sep) + pieces(b, sep));
    }
}

/// There is always at least one piece.
pub proof fn lemma_pieces_nonempty(s: Seq<char>, sep: char)
    ensures
        pieces(s, sep).len() > 0,
    decreases s.len(),
{
    if s.len() > 0 {
        lemma_pieces_nonempty(s.drop_last(), sep);
    }
}

/// A text without the separator is its only piece.
pub proof fn lemma_pieces_single(s: Seq<char>, sep: char)
    requires
        !s.contains(sep),
    ensures
        pieces(s, sep) == seq![s],
    decreases s.len(),
{
    if s.len() > 0 {
        assert forall|k: int| 0 <= k < s.drop_last().len() implies s.drop_last()[k] != sep by {
            assert(s[k] == s.drop_last()[k]);
        }
        lemma_pieces_single(s.drop_last(), sep);
        assert(s.last() != sep) by {
            assert(s[s.len() - 1] == s.last());
        }
        assert(s.drop_last().push(s.last()) =~= s);
        assert(pieces(s, sep) =~= seq![s]);
    } else {
        assert(s =~= Seq::<char>::empty());
        assert(pieces(s, sep) =~= seq![s]);
    }
}

/// Cutting at the first `c` gives back the two sides where the left one has no `c`.
pub proof fn lemma_cut(k: Seq<char>, c: char, v: Seq<char>)
    requires
        !k.contains(c),
    ensures
        cut(k.push(c) + v, c) == Some((k, v)),
{
    let s = k.push(c) + v;
    lemma_place(k, c, v);
    assert(s[k.len() as int] == c);
    assert(s.contains(c));
    assert(s.take(k.len() as int) =~= k);
    assert(s.skip(k.len() as int + 1) =~= v);
}

proof fn lemma_place(k: Seq<char>, c: char, v: Seq<char>)
    requires
        !k.contains(c),
    ensures
        place_of(k.push(c) + v, c) == k.len(),
    decreases k.len(),
{
    let s = k.push(c) + v;
    if k.len() == 0 {
        assert(s[0] == c);
    } else {
        assert(k[0] != c);
        assert(s[0] == k[0]);
        assert forall|i: int| 0 <= i < k.skip(1).len() implies k.skip(1)[i] != c by {
            assert(k[i + 1] == k.skip(1)[i]);
        }
        lemma_place(k.skip(1), c, v);
        assert(s.skip(1) =~= k.skip(1).push(c) + v);
    }
}

/// A text that neither starts nor ends with white space is its own trimmed form.
pub proof fn lemma_trimmed(s: Seq<char>)
    requires
        s.len() > 0,
        !is_space(s[0]),
        !is_space(s.last()),
    ensures
        trimmed(s) == s,
{
}

/// A word put behind a text and a space is one more word.
pub proof fn lemma_words_push(a: Seq<char>, w: Seq<char>)
    requires
        w.len() > 0,
        forall|k: int| 0 <= k < w.len() ==> !is_space(w[k]),
    ensures
        words(a.push(' ') + w) == words(a).push(w),
        words(w) == seq![w],
    decreases w.len(),
{
    let s = a.push(' ') + w;
    assert(a.push(' ').drop_last() =~= a);
    assert(words(a.push(' ')) == words(a));
    if w.len() == 1 {
        assert(s.drop_last() =~= a.push(' '));
        assert(s[s.len() - 2] == ' ');
        assert(seq![s.last()] =~= w);
        assert(seq![w.last()] =~= w);
        assert(words(w.drop_last()) =~= Seq::<Seq<char>>::empty());
        assert(words(w) =~= seq![w]);
    } else {
        let v = w.drop_last();
        assert forall|k: int| 0 <= k < v.len() implies !is_space(v[k]) by {
            assert(v[k] == w[k]);
        }
        lemma_words_push(a, v);
        assert(s.drop_last() =~= a.push(' ') + v);
        assert(s[s.len() - 2] == w[w.len() - 2]);
        assert(v.push(w.last()) =~= w);
        assert(words(s) =~= words(a).push(w));
        assert(words(w) =~= seq![w]);
    }
}

/// What stands before and after the trimmed text is white space, and the trimmed text neither starts
/// nor ends with any.
pub proof fn law_trimmed(s: Seq<char>)
    ensures
        exists|a: int, b: int|
            #![trigger s.subrange(a, b)]
            0 <= a <= b <= s.len() && s.subrange(a, b) == trimmed(s) && (forall|i: int|
                0 <= i < a || b <= i < s.len() ==> is_space(#[trigger] s[i])),
        trimmed(s).len() > 0 ==> !is_space(trimmed(s)[0]) && !is_space(trimmed(s).last()),
    decreases s.len(),
{
    if s.len() > 0 && is_space(s[0]) {
        let t = s.skip(1);
        law_trimmed(t);
        let (a, b) = choose|a: int, b: int|
            #![trigger t.subrange(a, b)]
            0 <= a <= b <= t.len() && t.subrange(a, b) == trimmed(t) && (forall|i: int|
                0 <= i < a || b <= i < t.len() ==> is_space(#[trigger] t[i]));
        assert(s.subrange(a + 1, b + 1) =~= t.subrange(a, b));
        assert forall|i: int| 0 <= i < a + 1 || b + 1 <= i < s.len() implies is_space(
            #[trigger] s[i],
        ) by {
            if i > 0 {
                assert(t[i - 1] == s[i]);
            }
        }
    } else {
        lemma_trimmed_end(s);
        let b = choose|b: int|
            #![trigger s.take(b)]
            0 <= b <= s.len() && s.take(b) == trim_end(s) && (forall|i: int|
                b <= i < s.len() ==> is_space(#[trigger] s[i]));
        assert(s.subrange(0, b) =~= s.take(b));
        if b > 0 {
            assert(s.take(b)[0] == s[0]);
        }
    }
}

proof fn lemma_trimmed_end(s: Seq<char>)
    ensures
        exists|b: int|
            #![trigger s.take(b)]
            0 <= b <= s.len() && s.take(b) == trim_end(s) && (forall|i: int|
                b <= i < s.len() ==> is_space(#[trigger] s[i])),
        trim_end(s).len() > 0 ==> !is_space(trim_end(s).last()),
    decreases s.len(),
{
    if s.len() > 0 && is_space(s.last()) {
        let t = s.drop_last();
        lemma_trimmed_end(t);
        let b = choose|b: int|
            #![trigger t.take(b)]
            0 <= b <= t.len() && t.take(b) == trim_end(t) && (forall|i: int|
                b <= i < t.len() ==> is_space(#[trigger] t[i]));
        assert(s.take(b) =~= t.take(b));
        assert forall|i: int| b <= i < s.len() implies is_space(#[trigger] s[i]) by {
            if i < t.len() {
                assert(t[i] == s[i]);
            }
        }
    } else {
        assert(s.take(s.len() as int) =~= s);
    }
}

/// White space is what Unicode says: among the ASCII characters the space, the tabs, the line and
/// form feeds and the carriage return, and no printable one; beyond them seventeen more.
pub proof fn law_white_space(c: char)
    ensures
        (c as u32) < 0x80 ==> (is_space(c) <==> c == ' ' || c == '\t' || c == '\n' || c == '\r' || c
            as u32 == 0x0b || c as u32 == 0x0c),
        (c as u32) >= 0x80 ==> (is_space(c) <==> c as u32 == 0x85 || c as u32 == 0xa0 || c as u32
            == 0x1680 || 0x2000 <= c as u32 <= 0x200a || c as u32 == 0x2028 || c as u32 == 0x2029
            || c as u32 == 0x202f || c as u32 == 0x205f || c as u32 == 0x3000),
{
}

/// No piece holds the separator, and a separator between two texts gives the pieces of both.
pub proof fn law_pieces(a: Seq<char>, sep: char, b: Seq<char>)
    ensures
        forall|i: int| 0 <= i < pieces(a, sep).len() ==> !(#[trigger] pieces(a, sep)[i]).contains(sep),
        pieces(a.push(sep) + b, sep) == pieces(a, sep) + pieces(b, sep),
        !a.contains(sep) ==> pieces(a, sep) == seq![a],
    decreases a.len(),
{
    lemma_pieces_join(a, sep, b);
    if !a.contains(sep) {
        lemma_pieces_single(a, sep);
    }
    if a.len() > 0 {
        let before = pieces(a.drop_last(), sep);
        law_pieces(a.drop_last(), sep, b);
        lemma_pieces_nonempty(a.drop_last(), sep);
        assert(!before[before.len() - 1].contains(sep));
        assert forall|i: int| 0 <= i < pieces(a, sep).len() implies !(#[trigger] pieces(
            a,
            sep,
        )[i]).contains(sep) by {
            if i < before.len() - 1 {
                assert(pieces(a, sep)[i] == before[i]);
            } else if a.last() != sep {
                let p = before.last().push(a.last());
                assert forall|k: int| 0 <= k < p.len() implies p[k] != sep by {
                    if k < before.last().len() {
                        assert(p[k] == before.last()[k]);
                    }
                }
            }
        }
    }
}

/// White space, however much, separates words and adds none; a stretch without any is one word.
pub proof fn law_words(a: Seq<char>, c: char, w: Seq<char>)
    requires
        is_space(c),
        w.len() > 0,
        forall|k: int| 0 <= k < w.len() ==> !is_space(#[trigger] w[k]),
    ensures
        words(Seq::empty()) == Seq::<Seq<char>>::empty(),
        words(a.push(c)) == words(a),
        words(a.push(c) + w) == words(a).push(w),
        words(w) == seq![w],
    decreases w.len(),
{
    let s = a.push(c) + w;
    assert(a.push(c).drop_last() =~= a);
    if w.len() == 1 {
        assert(s.drop_last() =~= a.push(c));
        assert(s[s.len() - 2] == c);
        assert(seq![s.last()] =~= w);
        assert(words(w.drop_last()) =~= Seq::<Seq<char>>::empty());
        assert(words(w) =~= seq![w]);
    } else {
        let v = w.drop_last();
        assert forall|k: int| 0 <= k < v.len() implies !is_space(#[trigger] v[k]) by {
            assert(v[k] == w[k]);
        }
        law_words(a, c, v);
        assert(s.drop_last() =~= a.push(c) + v);
        assert(s[s.len() - 2] == w[w.len() - 2]);
        assert(v.push(w.last()) =~= w);
        assert(words(s) =~= words(a).push(w));
        assert(words(w) =~= seq![w]);
    }
}

/// A text is cut at the first of a character, or not at all where it has none.
pub proof fn law_cut(s: Seq<char>, c: char)
    ensures
        cut(s, c) is Some <==> s.contains(c),
        cut(s, c) matches Some((k, v)) ==> s == k.push(c) + v && !k.contains(c),
    decreases s.len(),
{
    if s.contains(c) {
        lemma_first_place(s, c);
        let n = place_of(s, c);
        assert(s =~= s.take(n).push(c) + s.skip(n + 1));
    }
}

proof fn lemma_first_place(s: Seq<char>, c: char)
    requires
        s.contains(c),
    ensures
        0 <= place_of(s, c) < s.len(),
        s[place_of(s, c)] == c,
        !s.take(place_of(s, c)).contains(c),
    decreases s.len(),
{
    if s[0] != c {
        let t = s.skip(1);
        let i = choose|i: int| 0 <= i < s.len() && s[i] == c;
        assert(t[i - 1] == c);
        assert(t.contains(c));
        lemma_first_place(t, c);
        let n = place_of(t, c);
        assert(place_of(s, c) == 1 + n);
        assert(s[1 + n] == t[n]);
        let front = s.take(1 + n);
        assert forall|k: int| 0 <= k < front.len() implies front[k] != c by {
            if k > 0 {
                assert(t.take(n)[k - 1] == s[k]);
            }
        }
    }
}

/// Texts and their characters.
pub proof fn law_text_views(v: Seq<Vec<char>>, i: int, s: String)
    ensures
        texts(v).len() == v.len(),
        0 <= i < v.len() ==> texts(v)[i] == v[i]@,
        text_view(Some(s)) == Some(s@),
        text_view(None) is None,
{
}

} // verus!
