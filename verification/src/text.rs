use vstd::prelude::*;

verus! {

/// Whether `c` has the Unicode `White_Space` property, as `char::is_whitespace` documents it.
pub open spec fn is_space(c: char) -> bool {
    let v = c as u32;
    (0x9 <= v && v <= 0xd) || v == 0x20 || v == 0x85 || v == 0xa0 || v == 0x1680
        || (0x2000 <= v && v <= 0x200a) || v == 0x2028 || v == 0x2029 || v == 0x202f
        || v == 0x205f || v == 0x3000
}

/// Executable form of `is_space`.
pub fn char_is_space(c: char) -> (b: bool)
    ensures
        b == is_space(c),
{
    let v = c as u32;
    (0x9 <= v && v <= 0xd) || v == 0x20 || v == 0x85 || v == 0xa0 || v == 0x1680
        || (0x2000 <= v && v <= 0x200a) || v == 0x2028 || v == 0x2029 || v == 0x202f
        || v == 0x205f || v == 0x3000
}

/// The words of `s` (maximal runs of non-whitespace characters) joined by one space.
pub open spec fn normalized(s: Seq<char>) -> Seq<char>
    decreases s.len(),
{
    if s.len() == 0 {
        Seq::empty()
    } else {
        let prev = normalized(s.drop_last());
        let c = s.last();
        if is_space(c) {
            prev
        } else if s.len() >= 2 && is_space(s[s.len() - 2]) && prev.len() > 0 {
            prev + seq![' ', c]
        } else {
            prev.push(c)
        }
    }
}


/// The non-whitespace characters of `s`, in order.
pub open spec fn visible(s: Seq<char>) -> Seq<char> {
    s.filter(|c: char| !is_space(c))
}

/// The words of `s`: its maximal runs of non-whitespace characters, in order.
pub open spec fn words(s: Seq<char>) -> Seq<Seq<char>>
    decreases s.len(),
{
    if s.len() == 0 {
        Seq::empty()
    } else {
        let p = s.drop_last();
        let w = words(p);
        let c = s.last();
        if is_space(c) {
            w
        } else if p.len() > 0 && !is_space(p.last()) && w.len() > 0 {
            w.update(w.len() - 1, w.last().push(c))
        } else {
            w.push(seq![c])
        }
    }
}

/// The words `ws` joined by single spaces.
pub open spec fn joined(ws: Seq<Seq<char>>) -> Seq<char>
    decreases ws.len(),
{
    if ws.len() == 0 {
        Seq::empty()
    } else if ws.len() == 1 {
        ws[0]
    } else {
        joined(ws.drop_last()) + seq![' '] + ws.last()
    }
}

/// Text in normal form: every whitespace character is a single space that has
/// text on both sides and is followed by a non-whitespace character.
pub open spec fn is_normal(t: Seq<char>) -> bool {
    forall|i: int|
        0 <= i < t.len() && #[trigger] is_space(t[i]) ==> t[i] == ' ' && 0 < i < t.len() - 1
            && !is_space(t[i + 1])
}

/// Like `is_normal`, but a single trailing space is allowed.
spec fn is_normal_prefix(t: Seq<char>) -> bool {
    forall|i: int|
        0 <= i < t.len() && #[trigger] is_space(t[i]) ==> t[i] == ' ' && 0 < i && (i + 1 < t.len()
            ==> !is_space(t[i + 1]))
}

proof fn lemma_normal_prefix_fixed(t: Seq<char>)
    requires
        is_normal_prefix(t),
    ensures
        normalized(t) == (if t.len() > 0 && is_space(t.last()) {
            t.drop_last()
        } else {
            t
        }),
    decreases t.len(),
{
    if t.len() > 0 {
        let p = t.drop_last();
        assert(is_normal_prefix(p)) by {
            assert forall|i: int| 0 <= i < p.len() && #[trigger] is_space(p[i]) implies p[i] == ' '
                && 0 < i && (i + 1 < p.len() ==> !is_space(p[i + 1])) by {
                assert(p[i] == t[i]);
                if i + 1 < p.len() {
                    assert(p[i + 1] == t[i + 1]);
                }
            }
        }
        lemma_normal_prefix_fixed(p);
        let c = t.last();
        if is_space(c) {
            if p.len() > 0 {
                assert(is_space(t[t.len() - 1]));
                assert(!is_space(p.last()));
            }
        } else if t.len() >= 2 && is_space(t[t.len() - 2]) {
            assert(is_space(p.last()));
            assert(t[t.len() - 2] == ' ');
            assert(normalized(p).len() > 0);
            assert(normalized(p) + seq![' ', c] =~= t);
        } else {
            if t.len() >= 2 {
                assert(!is_space(p.last()));
            }
            assert(normalized(p).push(c) =~= t);
        }
    }
}

/// The result of `normalized` is in normal form.
pub proof fn lemma_normalized_is_normal(s: Seq<char>)
    ensures
        is_normal(normalized(s)),
    decreases s.len(),
{
    if s.len() > 0 {
        let p = s.drop_last();
        lemma_normalized_is_normal(p);
        let prev = normalized(p);
        let c = s.last();
        let r = normalized(s);
        if is_space(c) {
        } else if s.len() >= 2 && is_space(s[s.len() - 2]) && prev.len() > 0 {
            assert(!is_space(prev.last()));
            assert forall|i: int| 0 <= i < r.len() && #[trigger] is_space(r[i]) implies r[i] == ' '
                && 0 < i < r.len() - 1 && !is_space(r[i + 1]) by {
                if i < prev.len() {
                    assert(r[i] == prev[i]);
                    if i + 1 < prev.len() {
                        assert(r[i + 1] == prev[i + 1]);
                    }
                }
            }
        } else {
            assert forall|i: int| 0 <= i < r.len() && #[trigger] is_space(r[i]) implies r[i] == ' '
                && 0 < i < r.len() - 1 && !is_space(r[i + 1]) by {
                if i < prev.len() {
                    assert(r[i] == prev[i]);
                    if i + 1 < prev.len() {
                        assert(r[i + 1] == prev[i + 1]);
                    }
                }
            }
        }
    }
}

/// Text already in normal form is left unchanged by `normalized`.
pub proof fn lemma_normal_text_is_fixed(t: Seq<char>)
    requires
        is_normal(t),
    ensures
        normalized(t) == t,
{
    assert(is_normal_prefix(t));
    if t.len() > 0 {
        assert(!is_space(t.last())) by {
            if is_space(t[t.len() - 1]) {
            }
        }
    }
    lemma_normal_prefix_fixed(t);
}

/// Normalizing twice is the same as normalizing once.
pub proof fn lemma_normalize_idempotent(s: Seq<char>)
    ensures
        normalized(normalized(s)) == normalized(s),
{
    lemma_normalized_is_normal(s);
    lemma_normal_text_is_fixed(normalized(s));
}

/// Calls std's `String::push`, which appends one character; the contract claims that
/// the text afterwards is the text before with `c` at its end.
#[verifier::external_body]
fn push_char(s: &mut String, c: char)
    ensures
        final(s)@ == old(s)@.push(c),
{
    s.push(c)
}

/// Normalizing changes whitespace only: the letters, their case and the punctuation
/// of a reading are kept, in order.
pub proof fn law_normalization_keeps_visible_text(s: Seq<char>)
    ensures
        visible(normalized(s)) == visible(s),
    decreases s.len(),
{
    reveal(Seq::filter);
    if s.len() > 0 {
        let p = s.drop_last();
        let c = s.last();
        let prev = normalized(p);
        law_normalization_keeps_visible_text(p);
        assert(s.drop_last() == p);
        if is_space(c) {
        } else if s.len() >= 2 && is_space(s[s.len() - 2]) && prev.len() > 0 {
            let tail = seq![' ', c];
            Seq::filter_distributes_over_add(prev, tail, |c: char| !is_space(c));
            assert(tail.drop_last() =~= seq![' ']);
            assert(seq![' '].drop_last() =~= Seq::<char>::empty());
            reveal_with_fuel(Seq::filter, 3);
            assert(visible(tail) =~= seq![c]);
            assert(visible(s) =~= visible(p).push(c));
        } else {
            assert(prev.push(c).drop_last() =~= prev);
        }
    }
}

/// Normalizing keeps the sequence of words: the result is the words of the reading,
/// in order, joined by single spaces.
pub proof fn law_normalization_joins_the_words(s: Seq<char>)
    ensures
        normalized(s) == joined(words(s)),
    decreases s.len(),
{
    lemma_words_shape(s);
    if s.len() > 0 {
        let p = s.drop_last();
        let c = s.last();
        law_normalization_joins_the_words(p);
        lemma_words_shape(p);
        let w = words(p);
        if is_space(c) {
        } else if p.len() > 0 && !is_space(p.last()) {
            let last = w.last();
            let u = w.update(w.len() - 1, last.push(c));
            assert(u.drop_last() =~= w.drop_last());
            if w.len() == 1 {
                assert(joined(u) == u[0]);
            } else {
                assert(joined(u) == joined(w.drop_last()) + seq![' '] + last.push(c));
                assert(joined(w) == joined(w.drop_last()) + seq![' '] + last);
            }
            assert(joined(u) =~= joined(w).push(c));
            assert(s.len() < 2 || !is_space(s[s.len() - 2]));
        } else {
            let u = w.push(seq![c]);
            assert(u.drop_last() =~= w);
            if w.len() == 0 {
                assert(joined(u) == seq![c]);
                assert(joined(w).len() == 0);
                assert(normalized(p).push(c) =~= seq![c]);
            } else {
                assert(joined(u) == joined(w) + seq![' '] + seq![c]);
                assert(joined(w) + seq![' '] + seq![c] =~= joined(w) + seq![' ', c]);
            }
        }
    }
}

proof fn lemma_words_shape(s: Seq<char>)
    ensures
        (s.len() > 0 && !is_space(s.last())) ==> words(s).len() > 0,
        words(s).len() == 0 ==> joined(words(s)).len() == 0,
        words(s).len() > 0 ==> joined(words(s)).len() > 0,
        forall|i: int| 0 <= i < words(s).len() ==> #[trigger] words(s)[i].len() > 0,
    decreases s.len(),
{
    if s.len() > 0 {
        lemma_words_shape(s.drop_last());
        let w = words(s.drop_last());
        let r = words(s);
        assert forall|i: int| 0 <= i < r.len() implies #[trigger] r[i].len() > 0 by {
            if i < w.len() {
                assert(w[i].len() > 0);
            }
        }
        if r.len() > 0 {
            lemma_joined_nonempty(r);
        }
    }
}

proof fn lemma_joined_nonempty(ws: Seq<Seq<char>>)
    requires
        ws.len() > 0,
        ws.last().len() > 0,
    ensures
        joined(ws).len() > 0,
{
}

/// A text whose last character is not whitespace normalizes to a text that ends with
/// that same character.
proof fn lemma_normalized_last(s: Seq<char>)
    requires
        s.len() > 0,
        !is_space(s.last()),
    ensures
        normalized(s).len() > 0,
        normalized(s).last() == s.last(),
{
}

/// Normalizing keeps the words: the words of the result are those of the text, in order.
pub proof fn law_normalization_keeps_the_words(s: Seq<char>)
    ensures
        words(normalized(s)) == words(s),
    decreases s.len(),
{
    if s.len() > 0 {
        let p = s.drop_last();
        let c = s.last();
        let prev = normalized(p);
        law_normalization_keeps_the_words(p);
        law_normalization_joins_the_words(p);
        lemma_words_shape(p);
        if is_space(c) {
        } else if s.len() >= 2 && is_space(s[s.len() - 2]) && prev.len() > 0 {
            let sp = prev.push(' ');
            assert((prev + seq![' ', c]).drop_last() =~= sp);
            assert(sp.drop_last() =~= prev);
            assert(words(sp) == words(prev));
            assert(p.last() == s[s.len() - 2]);
        } else {
            assert(prev.push(c).drop_last() =~= prev);
            if p.len() > 0 && !is_space(p.last()) {
                lemma_normalized_last(p);
            } else if p.len() > 0 {
                assert(p.last() == s[s.len() - 2]);
                assert(prev.len() == 0);
            }
        }
    }
}

/// Collapses every run of whitespace to one space and trims both ends.
pub fn normalize(text: &str) -> (r: String)
    ensures
        r@ == normalized(text@),
        r@ == joined(words(text@)),
        words(r@) == words(text@),
        visible(r@) == visible(text@),
        is_normal(r@),
{
    let mut out = String::new();
    let mut prev_space = false;
    for c in it: text.chars()
        invariant
            it.seq() == text@,
            out@ == normalized(text@.take(it.index())),
            prev_space == (it.index() > 0 && is_space(text@[it.index() - 1])),
    {
        let ghost i = it.index();
        assert(c == text@[i]);
        assert(text@.take(i + 1).drop_last() =~= text@.take(i));
        if char_is_space(c) {
            prev_space = true;
        } else {
            if prev_space && !out.as_str().is_empty() {
                push_char(&mut out, ' ');
            }
            push_char(&mut out, c);
            prev_space = false;
        }
    }
    assert(text@.take(text@.len() as int) =~= text@);
    proof {
        law_normalization_joins_the_words(text@);
        law_normalization_keeps_the_words(text@);
        law_normalization_keeps_visible_text(text@);
        lemma_normalized_is_normal(text@);
    }
    out
}

/// `c` with ASCII upper-case letters mapped to lower case, as `char::to_ascii_lowercase` documents it.
pub open spec fn ascii_lower(c: char) -> char {
    if 'A' <= c && c <= 'Z' { (((c as u8) + 32) as u8) as char } else { c }
}

/// `s` with every ASCII upper-case letter mapped to lower case.
pub open spec fn ascii_lowercase(s: Seq<char>) -> Seq<char> {
    s.map_values(|c: char| ascii_lower(c))
}

/// `needle` occurs in `haystack` as a contiguous run.
pub open spec fn occurs_in(haystack: Seq<char>, needle: Seq<char>) -> bool {
    exists|i: int| 0 <= i <= haystack.len() - needle.len() && #[trigger] haystack.subrange(i, i + needle.len()) == needle
}

/// The characters of `s`.
pub fn chars_of(s: &str) -> (r: Vec<char>)
    ensures
        r@ == s@,
{
    let mut out: Vec<char> = Vec::new();
    for c in it: s.chars()
        invariant
            it.seq() == s@,
            out@ == s@.take(it.index()),
    {
        assert(c == s@[it.index()]);
        out.push(c);
        assert(out@ =~= s@.take(it.index() + 1));
    }
    assert(s@.take(s@.len() as int) =~= s@);
    out
}

/// The characters of `s` with ASCII letters in lower case.
pub fn lowercase_chars(s: &str) -> (r: Vec<char>)
    ensures
        r@ == ascii_lowercase(s@),
{
    let mut out: Vec<char> = Vec::new();
    for c in it: s.chars()
        invariant
            it.seq() == s@,
            out@ == ascii_lowercase(s@.take(it.index())),
    {
        assert(c == s@[it.index()]);
        let lower = if 'A' <= c && c <= 'Z' { ((c as u8) + 32) as char } else { c };
        out.push(lower);
        assert(out@ =~= ascii_lowercase(s@.take(it.index() + 1)));
    }
    assert(s@.take(s@.len() as int) =~= s@);
    out
}

/// Whether `needle` occurs in `haystack`.
pub fn find_in(haystack: &Vec<char>, needle: &Vec<char>) -> (b: bool)
    ensures
        b == occurs_in(haystack@, needle@),
{
    if needle.len() > haystack.len() {
        return false;
    }
    if needle.len() == 0 {
        assert(haystack@.subrange(0, 0int + needle@.len()) =~= needle@);
        return true;
    }
    let last = haystack.len() - needle.len();
    let mut i: usize = 0;
    while i <= last
        invariant
            last == haystack@.len() - needle@.len(),
            needle@.len() > 0,
            haystack@.len() <= usize::MAX,
            i <= last + 1,
            forall|j: int| 0 <= j < i ==> #[trigger] haystack@.subrange(j, j + needle@.len()) != needle@,
        decreases last + 1 - i,
    {
        let mut k: usize = 0;
        let mut same = true;
        while k < needle.len()
            invariant
                i <= last,
                last == haystack@.len() - needle@.len(),
                needle@.len() > 0,
                haystack@.len() <= usize::MAX,
                k <= needle@.len(),
                same == (forall|m: int| 0 <= m < k ==> haystack@[i + m] == needle@[m]),
            decreases needle@.len() - k,
        {
            if haystack[i + k] != needle[k] {
                same = false;
            }
            k = k + 1;
        }
        if same {
            assert(haystack@.subrange(i as int, i + needle@.len()) =~= needle@);
            return true;
        }
        assert(haystack@.subrange(i as int, i + needle@.len()) != needle@) by {
            let m = choose|m: int| 0 <= m < needle@.len() && haystack@[i + m] != needle@[m];
            assert(haystack@.subrange(i as int, i + needle@.len())[m] != needle@[m]);
        }
        i = i + 1;
    }
    proof {
        assert forall|j: int| 0 <= j <= haystack@.len() - needle@.len() implies #[trigger] haystack@.subrange(j, j + needle@.len()) != needle@ by {
        }
    }
    false
}

/// Every character of `s` is whitespace (`s.trim()` would be empty).
pub open spec fn is_blank(s: Seq<char>) -> bool {
    forall|i: int| 0 <= i < s.len() ==> #[trigger] is_space(s[i])
}

/// Whether `s` holds only whitespace.
pub fn blank(s: &str) -> (b: bool)
    ensures
        b == is_blank(s@),
{
    let mut all = true;
    for c in it: s.chars()
        invariant
            it.seq() == s@,
            all == (forall|i: int| 0 <= i < it.index() ==> #[trigger] is_space(s@[i])),
    {
        assert(c == s@[it.index()]);
        if !char_is_space(c) {
            all = false;
        }
    }
    all
}

/// The number of characters of `s`, counted up to `limit`.
pub fn count_chars_upto(s: &str, limit: usize) -> (n: usize)
    ensures
        n == if s@.len() < limit { s@.len() as int } else { limit as int },
{
    let mut n: usize = 0;
    for c in it: s.chars()
        invariant
            it.seq() == s@,
            n == if it.index() < limit { it.index() } else { limit as int },
    {
        if n < limit {
            n = n + 1;
        }
    }
    n
}

} // verus!
