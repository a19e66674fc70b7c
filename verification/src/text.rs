//! Character-level text utilities: whitespace trimming, splitting a text into
//! lines, case folding, and the tilde-to-note normalization of dialogue text.

use vstd::prelude::*;

verus! {

/// The Unicode characters with the `White_Space` property, the set that
/// surrounding-whitespace trimming removes.
pub open spec fn is_space(c: char) -> bool {
    let n = c as u32;
    ||| n == 0x20
    ||| (0x9 <= n && n <= 0xD)
    ||| n == 0x85
    ||| n == 0xA0
    ||| n == 0x1680
    ||| (0x2000 <= n && n <= 0x200A)
    ||| n == 0x2028
    ||| n == 0x2029
    ||| n == 0x202F
    ||| n == 0x205F
    ||| n == 0x3000
}

pub fn is_space_char(c: char) -> (r: bool)
    ensures
        r == is_space(c),
{
    let n = c as u32;
    n == 0x20 || (0x9 <= n && n <= 0xD) || n == 0x85 || n == 0xA0 || n == 0x1680 || (0x2000 <= n
        && n <= 0x200A) || n == 0x2028 || n == 0x2029 || n == 0x202F || n == 0x205F || n == 0x3000
}

/// A sequence with its leading whitespace removed.
pub open spec fn trim_start_spec(s: Seq<char>) -> Seq<char>
    decreases s.len(),
{
    if s.len() == 0 {
        s
    } else if is_space(s[0]) {
        trim_start_spec(s.drop_first())
    } else {
        s
    }
}

/// A sequence with its trailing whitespace removed.
pub open spec fn trim_end_spec(s: Seq<char>) -> Seq<char>
    decreases s.len(),
{
    if s.len() == 0 {
        s
    } else if is_space(s.last()) {
        trim_end_spec(s.drop_last())
    } else {
        s
    }
}

/// A sequence with both surrounding stretches of whitespace removed.
pub open spec fn trim_spec(s: Seq<char>) -> Seq<char> {
    trim_end_spec(trim_start_spec(s))
}

proof fn lemma_trim_start_at(s: Seq<char>, a: int)
    requires
        0 <= a <= s.len(),
        forall|i: int| 0 <= i < a ==> is_space(s[i]),
        a < s.len() ==> !is_space(s[a]),
    ensures
        trim_start_spec(s) == s.skip(a),
    decreases a,
{
    if a == 0 {
        assert(s.skip(0) =~= s);
    } else {
        assert(is_space(s[0]));
        lemma_trim_start_at(s.drop_first(), a - 1);
        assert(s.drop_first().skip(a - 1) =~= s.skip(a));
    }
}

proof fn lemma_trim_end_at(s: Seq<char>, b: int)
    requires
        0 <= b <= s.len(),
        forall|i: int| b <= i < s.len() ==> is_space(s[i]),
        b > 0 ==> !is_space(s[b - 1]),
    ensures
        trim_end_spec(s) == s.take(b),
    decreases s.len(),
{
    if b == s.len() {
        if s.len() == 0 {
            assert(s.take(b) =~= s);
        } else {
            assert(!is_space(s.last()));
            assert(s.take(b) =~= s);
        }
    } else {
        assert(is_space(s.last()));
        lemma_trim_end_at(s.drop_last(), b);
        assert(s.drop_last().take(b) =~= s.take(b));
    }
}

/// Copy of the characters of `v` in the index range `a..b`.
pub fn subvec(v: &Vec<char>, a: usize, b: usize) -> (r: Vec<char>)
    requires
        a <= b <= v@.len(),
    ensures
        r@ == v@.subrange(a as int, b as int),
{
    let mut r: Vec<char> = Vec::new();
    let mut i: usize = a;
    while i < b
        invariant
            a <= i <= b <= v@.len(),
            r@ == v@.subrange(a as int, i as int),
        decreases b - i,
    {
        r.push(v[i]);
        proof {
            assert(v@.subrange(a as int, i + 1 as int) =~= v@.subrange(a as int, i as int).push(
                v@[i as int],
            ));
        }
        i = i + 1;
    }
    r
}

/// Remove the surrounding whitespace of one raw line.
pub fn trim_line(v: &Vec<char>) -> (r: Vec<char>)
    ensures
        r@ == trim_spec(v@),
{
    let mut a: usize = 0;
    while a < v.len() && is_space_char(v[a])
        invariant
            a <= v@.len(),
            forall|i: int| 0 <= i < a ==> is_space(v@[i]),
        decreases v@.len() - a,
    {
        a = a + 1;
    }
    let mut b: usize = v.len();
    while b > a && is_space_char(v[b - 1])
        invariant
            a <= b <= v@.len(),
            forall|i: int| b <= i < v@.len() ==> is_space(v@[i]),
        decreases b,
    {
        b = b - 1;
    }
    proof {
        lemma_trim_start_at(v@, a as int);
        let s = v@.skip(a as int);
        lemma_trim_end_at(s, b - a);
        assert(s.take(b - a) =~= v@.subrange(a as int, b as int));
    }
    subvec(v, a, b)
}

/// Split a sequence at every occurrence of `sep`; the separator itself is
/// dropped, and a trailing separator yields a trailing empty segment.
pub open spec fn split_on<A>(s: Seq<A>, sep: A) -> Seq<Seq<A>>
    decreases s.len(),
{
    if s.len() == 0 {
        seq![Seq::<A>::empty()]
    } else if s[0] == sep {
        seq![Seq::<A>::empty()] + split_on(s.drop_first(), sep)
    } else {
        let rest = split_on(s.drop_first(), sep);
        seq![seq![s[0]] + rest[0]] + rest.drop_first()
    }
}

pub proof fn lemma_split_on_len<A>(s: Seq<A>, sep: A)
    ensures
        split_on(s, sep).len() >= 1,
    decreases s.len(),
{
    if s.len() == 0 {
    } else {
        lemma_split_on_len(s.drop_first(), sep);
    }
}

/// The views of a vector of character vectors.
pub open spec fn views_of(ls: Seq<Vec<char>>) -> Seq<Seq<char>> {
    ls.map_values(|l: Vec<char>| l@)
}

/// Split the full text at every newline character.
pub fn split_newlines(v: &Vec<char>) -> (r: Vec<Vec<char>>)
    ensures
        views_of(r@) == split_on(v@, '\n'),
{
    let mut done: Vec<Vec<char>> = Vec::new();
    let mut cur: Vec<char> = Vec::new();
    let mut i: usize = 0;
    proof {
        assert(v@.skip(0) =~= v@);
        let rest = split_on(v@, '\n');
        lemma_split_on_len(v@, '\n');
        assert(views_of(done@) + seq![cur@ + rest[0]] + rest.drop_first() =~~= rest);
    }
    while i < v.len()
        invariant
            i <= v@.len(),
            split_on(v@, '\n') == ({
                let rest = split_on(v@.skip(i as int), '\n');
                views_of(done@) + seq![cur@ + rest[0]] + rest.drop_first()
            }),
        decreases v@.len() - i,
    {
        let ghost pre_done = done@;
        let ghost pre_cur = cur@;
        let ghost rest = split_on(v@.skip(i as int), '\n');
        let ghost rest2 = split_on(v@.skip(i + 1 as int), '\n');
        proof {
            assert(v@.skip(i as int)[0] == v@[i as int]);
            assert(v@.skip(i as int).drop_first() =~= v@.skip(i + 1 as int));
            lemma_split_on_len(v@.skip(i + 1 as int), '\n');
        }
        let c = v[i];
        if c == '\n' {
            let ghost pre_curv = cur;
            done.push(cur);
            cur = Vec::new();
            proof {
                assert(rest =~= seq![Seq::<char>::empty()] + rest2);
                assert(done@ == pre_done.push(pre_curv));
                assert(views_of(done@) =~= views_of(pre_done).push(pre_cur));
                assert(views_of(done@) + seq![cur@ + rest2[0]] + rest2.drop_first()
                    =~~= views_of(pre_done) + seq![pre_cur + rest[0]] + rest.drop_first());
            }
        } else {
            cur.push(c);
            proof {
                assert(rest =~= seq![seq![v@[i as int]] + rest2[0]] + rest2.drop_first());
                assert(cur@ == pre_cur.push(v@[i as int]));
                assert(views_of(done@) + seq![cur@ + rest2[0]] + rest2.drop_first()
                    =~~= views_of(pre_done) + seq![pre_cur + rest[0]] + rest.drop_first());
            }
        }
        i = i + 1;
    }
    let ghost pre_done = done@;
    let ghost pre_cur = cur@;
    let ghost pre_curv = cur;
    done.push(cur);
    proof {
        assert(v@.skip(v@.len() as int) =~= Seq::<char>::empty());
        let rest = split_on(v@.skip(v@.len() as int), '\n');
        assert(rest =~= seq![Seq::<char>::empty()]);
        assert(done@ == pre_done.push(pre_curv));
        assert(views_of(done@) =~= views_of(pre_done).push(pre_cur));
        assert(views_of(done@) =~~= views_of(pre_done) + seq![pre_cur + rest[0]]
            + rest.drop_first());
    }
    done
}

/// Replace every tilde in a dialogue text with the musical-note glyph.
pub open spec fn normalized(t: Seq<char>) -> Seq<char> {
    t.map_values(|c: char| if c == '~' { '\u{266B}' } else { c })
}

/// Replace every `~` in a text line with the musical-note glyph that marks
/// sung delivery.
pub fn format_transcript_text(text: &Vec<char>) -> (r: Vec<char>)
    ensures
        r@ == normalized(text@),
{
    let mut r: Vec<char> = Vec::new();
    let mut i: usize = 0;
    while i < text.len()
        invariant
            i <= text@.len(),
            r@ == normalized(text@.take(i as int)),
        decreases text@.len() - i,
    {
        let c = text[i];
        if c == '~' {
            r.push('\u{266B}');
        } else {
            r.push(c);
        }
        proof {
            assert(normalized(text@.take(i + 1 as int)) =~= normalized(
                text@.take(i as int),
            ).push(if text@[i as int] == '~' {
                '\u{266B}'
            } else {
                text@[i as int]
            }));
        }
        i = i + 1;
    }
    proof {
        assert(text@.take(text@.len() as int) =~= text@);
    }
    r
}

/// Whether two character vectors hold the same characters.
pub fn eq_chars(a: &Vec<char>, b: &Vec<char>) -> (r: bool)
    ensures
        r == (a@ == b@),
{
    if a.len() != b.len() {
        return false;
    }
    let mut i: usize = 0;
    while i < a.len()
        invariant
            a@.len() == b@.len(),
            i <= a@.len(),
            forall|j: int| 0 <= j < i ==> a@[j] == b@[j],
        decreases a@.len() - i,
    {
        if a[i] != b[i] {
            return false;
        }
        i = i + 1;
    }
    proof {
        assert(a@ =~= b@);
    }
    true
}

/// The characters of a string, in order.
pub fn chars_of(s: &str) -> (r: Vec<char>)
    ensures
        r@ == s@,
{
    let mut r: Vec<char> = Vec::new();
    for c in it: s.chars()
        invariant
            it.seq() == s@,
            r@ == s@.take(it.index() as int),
    {
        proof {
            assert(s@.take(it.index() + 1 as int) =~= s@.take(it.index() as int).push(
                s@[it.index() as int],
            ));
        }
        r.push(c);
    }
    proof {
        assert(s@.take(s@.len() as int) =~= s@);
    }
    r
}

/// Copy of a character vector.
pub fn clone_chars(v: &Vec<char>) -> (r: Vec<char>)
    ensures
        r@ == v@,
{
    let mut r: Vec<char> = Vec::new();
    let mut i: usize = 0;
    while i < v.len()
        invariant
            i <= v@.len(),
            r@ == v@.take(i as int),
        decreases v@.len() - i,
    {
        r.push(v[i]);
        proof {
            assert(v@.take(i + 1 as int) =~= v@.take(i as int).push(v@[i as int]));
        }
        i = i + 1;
    }
    proof {
        assert(v@.take(v@.len() as int) =~= v@);
    }
    r
}

/// Drop the last character of a line, if any: the trailing colon of a
/// speaker marker.
pub fn remove_last_char(v: &Vec<char>) -> (r: Vec<char>)
    ensures
        r@ == if v@.len() == 0 {
            v@
        } else {
            v@.drop_last()
        },
{
    if v.len() == 0 {
        let r = subvec(v, 0, 0);
        proof {
            assert(v@.subrange(0, 0) =~= v@);
        }
        r
    } else {
        let r = subvec(v, 0, v.len() - 1);
        proof {
            assert(v@.subrange(0, v@.len() - 1) =~= v@.drop_last());
        }
        r
    }
}

/// Drop the first character of a line, if any: the tilde that marks an
/// uncommon character.
pub fn remove_first_char(v: &Vec<char>) -> (r: Vec<char>)
    ensures
        r@ == if v@.len() == 0 {
            v@
        } else {
            v@.drop_first()
        },
{
    if v.len() == 0 {
        let r = subvec(v, 0, 0);
        proof {
            assert(v@.subrange(0, 0) =~= v@);
        }
        r
    } else {
        let r = subvec(v, 1, v.len());
        proof {
            assert(v@.subrange(1, v@.len() as int) =~= v@.drop_first());
        }
        r
    }
}

/// What `str::to_lowercase` returns for a given character sequence: the
/// result depends on the characters alone.
pub uninterp spec fn lower_of(s: Seq<char>) -> Seq<char>;

/// Relies on `str::to_lowercase`: its result is a function of the input
/// characters alone, and an empty input yields an empty result.
#[verifier::external_body]
pub fn lower_chars(v: &Vec<char>) -> (r: Vec<char>)
    ensures
        r@ == lower_of(v@),
        v@.len() == 0 ==> r@.len() == 0,
{
    let s: String = v.iter().collect();
    s.to_lowercase().chars().collect()
}

/// Relies on the `FromIterator` impl of `String`: collecting characters
/// yields the string made of exactly those characters.
#[verifier::external_body]
pub fn string_from_chars(v: &Vec<char>) -> (r: String)
    ensures
        r@ == v@,
{
    v.iter().collect()
}

} // verus!
