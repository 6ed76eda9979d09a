use vstd::prelude::*;
use vstd::utf8::{
    decode_utf8, decode_utf8_encode_utf8, decode_utf8_split, encode_scalar, encode_utf8,
    encode_utf8_decode_utf8, is_char_boundary, is_char_boundary_iff_not_is_continuation_byte,
    is_char_boundary_start_end_of_seq, valid_utf8_split,
};

verus! {

broadcast use vstd::string::group_string_axioms;

/// `c` with an ASCII capital letter turned into its small letter.
pub open spec fn ascii_lower(c: char) -> char {
    if 'A' <= c && c <= 'Z' { ((c as u32) + 32) as char } else { c }
}

/// The text with every ASCII capital letter turned into its small letter.
pub open spec fn lower(s: Seq<char>) -> Seq<char> {
    s.map_values(|c: char| ascii_lower(c))
}

/// Appends one character (std's `String::push`).
#[verifier::external_body]
pub(crate) fn push_char(s: &mut String, c: char)
    ensures
        final(s)@ == old(s)@.push(c),
{
    s.push(c);
}

/// The characters of `s`, in order.
pub fn chars_of(s: &str) -> (r: Vec<char>)
    ensures
        r@ == s@,
{
    let mut r: Vec<char> = Vec::new();
    for c in it: s.chars()
        invariant
            r@ == it.seq().take(it.index() as int),
    {
        r.push(c);
    }
    r
}

/// A string made of the given characters.
pub fn string_of(v: &[char]) -> (r: String)
    ensures
        r@ == v@,
{
    let mut r = String::new();
    let mut i: usize = 0;
    while i < v.len()
        invariant
            i <= v@.len(),
            r@ == v@.take(i as int),
        decreases v@.len() - i,
    {
        push_char(&mut r, v[i]);
        assert(v@.take(i + 1) =~= v@.take(i as int).push(v@[i as int]));
        i += 1;
    }
    assert(v@.take(v@.len() as int) =~= v@);
    r
}


/// `c` with an ASCII small letter turned into its capital letter.
pub open spec fn ascii_upper(c: char) -> char {
    if 'a' <= c && c <= 'z' { ((c as u32) - 32) as char } else { c }
}

/// The text with every ASCII small letter turned into its capital letter.
pub open spec fn upper(s: Seq<char>) -> Seq<char> {
    s.map_values(|c: char| ascii_upper(c))
}

pub fn char_to_ascii_lowercase(c: char) -> (r: char)
    ensures
        r == ascii_lower(c),
{
    if 'A' <= c && c <= 'Z' {
        ((c as u8) + 32) as char
    } else {
        c
    }
}

pub fn char_to_ascii_uppercase(c: char) -> (r: char)
    ensures
        r == ascii_upper(c),
{
    if 'a' <= c && c <= 'z' {
        ((c as u8) - 32) as char
    } else {
        c
    }
}

/// `s` with its ASCII letters made small, as std's `str::to_ascii_lowercase`.
pub fn to_ascii_lowercase(s: &str) -> (r: String)
    ensures
        r@ == lower(s@),
{
    let cs = chars_of(s);
    let mut out: Vec<char> = Vec::new();
    let mut i: usize = 0;
    while i < cs.len()
        invariant
            cs@ == s@,
            i <= cs@.len(),
            out@ == lower(s@).take(i as int),
        decreases cs@.len() - i,
    {
        out.push(char_to_ascii_lowercase(cs[i]));
        assert(lower(s@).take(i + 1) =~= lower(s@).take(i as int).push(ascii_lower(s@[i as int])));
        i += 1;
    }
    assert(lower(s@).take(cs@.len() as int) =~= lower(s@));
    string_of(&out)
}

/// `s` with its ASCII letters made capital, as std's `str::to_ascii_uppercase`.
pub fn to_ascii_uppercase(s: &str) -> (r: String)
    ensures
        r@ == upper(s@),
{
    let cs = chars_of(s);
    let mut out: Vec<char> = Vec::new();
    let mut i: usize = 0;
    while i < cs.len()
        invariant
            cs@ == s@,
            i <= cs@.len(),
            out@ == upper(s@).take(i as int),
        decreases cs@.len() - i,
    {
        out.push(char_to_ascii_uppercase(cs[i]));
        assert(upper(s@).take(i + 1) =~= upper(s@).take(i as int).push(ascii_upper(s@[i as int])));
        i += 1;
    }
    assert(upper(s@).take(cs@.len() as int) =~= upper(s@));
    string_of(&out)
}

/// The characters that Unicode gives the property White_Space, which std's
/// `char::is_whitespace` and `str::trim` go by.
pub open spec fn is_white_space(c: char) -> bool {
    ||| ('\u{9}' <= c && c <= '\u{d}')
    ||| c == ' '
    ||| c == '\u{85}'
    ||| c == '\u{a0}'
    ||| c == '\u{1680}'
    ||| ('\u{2000}' <= c && c <= '\u{200a}')
    ||| c == '\u{2028}'
    ||| c == '\u{2029}'
    ||| c == '\u{202f}'
    ||| c == '\u{205f}'
    ||| c == '\u{3000}'
}

pub fn char_is_whitespace(c: char) -> (r: bool)
    ensures
        r == is_white_space(c),
{
    ('\u{9}' <= c && c <= '\u{d}') || c == ' ' || c == '\u{85}' || c == '\u{a0}' || c == '\u{1680}'
        || ('\u{2000}' <= c && c <= '\u{200a}') || c == '\u{2028}' || c == '\u{2029}' || c
        == '\u{202f}' || c == '\u{205f}' || c == '\u{3000}'
}

/// `s` without the white space at its start.
pub open spec fn trim_start(s: Seq<char>) -> Seq<char>
    decreases s.len(),
{
    if s.len() > 0 && is_white_space(s[0]) {
        trim_start(s.drop_first())
    } else {
        s
    }
}

/// `s` without the white space at its end.
pub open spec fn trim_end(s: Seq<char>) -> Seq<char>
    decreases s.len(),
{
    if s.len() > 0 && is_white_space(s.last()) {
        trim_end(s.drop_last())
    } else {
        s
    }
}

/// `s` without the white space at either end, as std's `str::trim`.
pub open spec fn trim(s: Seq<char>) -> Seq<char> {
    trim_end(trim_start(s))
}

proof fn lemma_trim_start_skip(s: Seq<char>, i: int)
    requires
        0 <= i <= s.len(),
        forall|k: int| 0 <= k < i ==> is_white_space(#[trigger] s[k]),
    ensures
        trim_start(s) == trim_start(s.skip(i)),
    decreases i,
{
    if i > 0 {
        assert(s.skip(1) =~= s.drop_first());
        lemma_trim_start_skip(s.drop_first(), i - 1);
        assert(s.drop_first().skip(i - 1) =~= s.skip(i));
    } else {
        assert(s.skip(0) =~= s);
    }
}

proof fn lemma_trim_end_take(s: Seq<char>, j: int)
    requires
        0 <= j <= s.len(),
        forall|k: int| j <= k < s.len() ==> is_white_space(#[trigger] s[k]),
    ensures
        trim_end(s) == trim_end(s.take(j)),
    decreases s.len() - j,
{
    if j < s.len() {
        assert(s.take(s.len() - 1) =~= s.drop_last());
        lemma_trim_end_take(s.drop_last(), j);
        assert(s.drop_last().take(j) =~= s.take(j));
    } else {
        assert(s.take(j) =~= s);
    }
}

/// The characters of `v` from `lo` up to `hi`.
pub fn slice_string(v: &Vec<char>, lo: usize, hi: usize) -> (r: String)
    requires
        lo <= hi <= v@.len(),
    ensures
        r@ == v@.subrange(lo as int, hi as int),
{
    let mut r = String::new();
    let mut i: usize = lo;
    while i < hi
        invariant
            lo <= i <= hi <= v@.len(),
            r@ == v@.subrange(lo as int, i as int),
        decreases hi - i,
    {
        push_char(&mut r, v[i]);
        assert(v@.subrange(lo as int, i + 1) =~= v@.subrange(lo as int, i as int).push(v@[i as int]));
        i += 1;
    }
    r
}

/// The bounds of `v` without its surrounding white space.
pub fn trim_bounds(v: &Vec<char>) -> (r: (usize, usize))
    ensures
        r.0 <= r.1 <= v@.len(),
        v@.subrange(r.0 as int, r.1 as int) == trim(v@),
{
    let mut lo: usize = 0;
    while lo < v.len() && char_is_whitespace(v[lo])
        invariant
            lo <= v@.len(),
            forall|k: int| 0 <= k < lo ==> is_white_space(#[trigger] v@[k]),
        decreases v@.len() - lo,
    {
        lo += 1;
    }
    proof {
        lemma_trim_start_skip(v@, lo as int);
        let t = v@.skip(lo as int);
        if t.len() > 0 {
            assert(t[0] == v@[lo as int]);
        }
    }
    let mut hi: usize = v.len();
    while hi > lo && char_is_whitespace(v[hi - 1])
        invariant
            lo <= hi <= v@.len(),
            forall|k: int| hi <= k < v@.len() ==> is_white_space(#[trigger] v@[k]),
        decreases hi,
    {
        hi -= 1;
    }
    proof {
        let t = v@.skip(lo as int);
        assert(trim_start(v@) == t);
        assert forall|k: int| hi - lo <= k < t.len() implies is_white_space(#[trigger] t[k]) by {
            assert(t[k] == v@[k + lo]);
        }
        lemma_trim_end_take(t, hi - lo);
        let u = t.take(hi - lo);
        assert(u =~= v@.subrange(lo as int, hi as int));
        if u.len() > 0 {
            assert(u.last() == v@[hi - 1]);
        }
    }
    (lo, hi)
}

/// `s` without the white space at either end, as std's `str::trim`.
pub fn trim_str(s: &str) -> (r: String)
    ensures
        r@ == trim(s@),
{
    let v = chars_of(s);
    let (lo, hi) = trim_bounds(&v);
    slice_string(&v, lo, hi)
}


/// `pat` stands in `s` starting at position `i`.
pub open spec fn occurs_at(s: Seq<char>, pat: Seq<char>, i: int) -> bool {
    0 <= i && i + pat.len() <= s.len() && s.subrange(i, i + pat.len()) == pat
}

/// `pat` stands somewhere in `s`, as std's `str::contains` with a string pattern.
pub open spec fn has_substring(s: Seq<char>, pat: Seq<char>) -> bool {
    exists|i: int| occurs_at(s, pat, i)
}

fn occurs_at_exec(s: &Vec<char>, pat: &Vec<char>, i: usize) -> (r: bool)
    requires
        i + pat@.len() <= s@.len(),
    ensures
        r == occurs_at(s@, pat@, i as int),
{
    let mut k: usize = 0;
    while k < pat.len()
        invariant
            i + pat@.len() <= s@.len(),
            s@.len() == s.len(),
            k <= pat@.len(),
            forall|j: int| 0 <= j < k ==> s@[i + j] == pat@[j],
        decreases pat@.len() - k,
    {
        if s[i + k] != pat[k] {
            assert(s@.subrange(i as int, i + pat@.len())[k as int] != pat@[k as int]);
            return false;
        }
        k += 1;
    }
    assert(s@.subrange(i as int, i + pat@.len()) =~= pat@);
    true
}

/// Whether `pat` stands somewhere in `s`.
pub fn contains_chars(s: &Vec<char>, pat: &Vec<char>) -> (r: bool)
    ensures
        r == has_substring(s@, pat@),
{
    if pat.len() > s.len() {
        assert forall|i: int| !occurs_at(s@, pat@, i) by {}
        return false;
    }
    if pat.len() == 0 {
        assert(s@.subrange(0, 0) =~= pat@);
        assert(occurs_at(s@, pat@, 0));
        return true;
    }
    let last = s.len() - pat.len();
    let mut i: usize = 0;
    while i <= last
        invariant
            last + pat@.len() == s@.len(),
            pat@.len() > 0,
            s@.len() == s.len(),
            i <= last + 1,
            forall|j: int| 0 <= j < i ==> !occurs_at(s@, pat@, j),
        decreases last + 1 - i,
    {
        if occurs_at_exec(s, pat, i) {
            return true;
        }
        i += 1;
    }
    assert forall|j: int| !occurs_at(s@, pat@, j) by {
        if 0 <= j && j + pat@.len() <= s@.len() {
            assert(j < i);
        }
    }
    false
}

/// Whether `pat` stands somewhere in `s`, as std's `str::contains`.
pub fn contains_str(s: &str, pat: &str) -> (r: bool)
    ensures
        r == has_substring(s@, pat@),
{
    let a = chars_of(s);
    let b = chars_of(pat);
    contains_chars(&a, &b)
}

/// Whether the two strings hold the same characters.
pub fn str_eq(a: &str, b: &str) -> (r: bool)
    ensures
        r == (a@ == b@),
{
    let x = chars_of(a);
    let y = chars_of(b);
    if x.len() != y.len() {
        return false;
    }
    let mut i: usize = 0;
    while i < x.len()
        invariant
            x@ == a@,
            y@ == b@,
            x@.len() == y@.len(),
            i <= x@.len(),
            forall|j: int| 0 <= j < i ==> x@[j] == y@[j],
        decreases x@.len() - i,
    {
        if x[i] != y[i] {
            return false;
        }
        i += 1;
    }
    assert(x@ =~= y@);
    true
}

/// The pieces of `s` between the separators, read from the left; `cur` is
/// the piece begun so far.
pub open spec fn split_from(s: Seq<char>, sep: char, cur: Seq<char>) -> Seq<Seq<char>>
    decreases s.len(),
{
    if s.len() == 0 {
        seq![cur]
    } else if s[0] == sep {
        seq![cur] + split_from(s.drop_first(), sep, Seq::empty())
    } else {
        split_from(s.drop_first(), sep, cur.push(s[0]))
    }
}

/// The pieces of `s` between the separators, as std's `str::split` with a
/// character: one more piece than there are separators.
pub open spec fn split(s: Seq<char>, sep: char) -> Seq<Seq<char>> {
    split_from(s, sep, Seq::empty())
}

/// The views of a vector of strings.
pub open spec fn views(v: Seq<String>) -> Seq<Seq<char>> {
    v.map_values(|x: String| x@)
}

/// The pieces of `s` between the separators `sep`.
pub fn split_chars(s: &Vec<char>, sep: char) -> (r: Vec<String>)
    ensures
        views(r@) == split(s@, sep),
{
    let mut out: Vec<String> = Vec::new();
    let mut cur: Vec<char> = Vec::new();
    let mut i: usize = 0;
    assert(s@.skip(0) =~= s@);
    assert(views(out@) =~= Seq::<Seq<char>>::empty());
    while i < s.len()
        invariant
            i <= s@.len(),
            views(out@) + split_from(s@.skip(i as int), sep, cur@) == split(s@, sep),
        decreases s@.len() - i,
    {
        let ghost rest = s@.skip(i as int);
        assert(rest.drop_first() =~= s@.skip(i + 1));
        if s[i] == sep {
            let piece = string_of(&cur);
            let ghost before = views(out@);
            out.push(piece);
            assert(views(out@) =~= before.push(cur@));
            cur = Vec::new();
        } else {
            cur.push(s[i]);
        }
        i += 1;
    }
    let piece = string_of(&cur);
    let ghost before = views(out@);
    out.push(piece);
    assert(views(out@) =~= before.push(cur@));
    proof {
        assert(s@.skip(i as int) =~= Seq::<char>::empty());
    }
    assert(views(out@) =~= split(s@, sep));
    out
}


proof fn lemma_split_from_nonempty(s: Seq<char>, sep: char, cur: Seq<char>)
    ensures
        split_from(s, sep, cur).len() >= 1,
    decreases s.len(),
{
    if s.len() > 0 {
        if s[0] == sep {
            lemma_split_from_nonempty(s.drop_first(), sep, Seq::empty());
        } else {
            lemma_split_from_nonempty(s.drop_first(), sep, cur.push(s[0]));
        }
    }
}

/// The pieces joined with `sep` between each two, as std's `join` on a slice of strings.
pub open spec fn join(parts: Seq<Seq<char>>, sep: Seq<char>) -> Seq<char>
    decreases parts.len(),
{
    if parts.len() == 0 {
        Seq::empty()
    } else if parts.len() == 1 {
        parts[0]
    } else {
        join(parts.drop_last(), sep) + sep + parts.last()
    }
}

/// The strings joined with `sep` between each two.
pub fn join_strings(parts: &Vec<String>, sep: &str) -> (r: String)
    ensures
        r@ == join(views(parts@), sep@),
{
    let mut r = String::new();
    let mut i: usize = 0;
    while i < parts.len()
        invariant
            i <= parts@.len(),
            r@ == join(views(parts@).take(i as int), sep@),
        decreases parts@.len() - i,
    {
        let ghost before = views(parts@).take(i as int);
        assert(views(parts@).take(i + 1).drop_last() =~= before);
        if i > 0 {
            r.append(sep);
        } else {
            assert(r@ =~= Seq::<char>::empty());
        }
        r.append(parts[i].as_str());
        i += 1;
    }
    assert(views(parts@).take(parts@.len() as int) =~= views(parts@));
    r
}

/// `s` without one carriage return at its end.
pub open spec fn strip_cr(s: Seq<char>) -> Seq<char> {
    if s.len() > 0 && s.last() == '\r' {
        s.drop_last()
    } else {
        s
    }
}

/// The lines of `s`, as std's `str::lines`: split at each line feed, with a
/// carriage return before it dropped, and no last line where `s` is empty or
/// ends with a line feed.
pub open spec fn lines(s: Seq<char>) -> Seq<Seq<char>> {
    let parts = split(s, '\n');
    let init = parts.drop_last().map_values(|p: Seq<char>| strip_cr(p));
    if parts.last().len() == 0 {
        init
    } else {
        init.push(parts.last())
    }
}

proof fn lemma_split_from_single(s: Seq<char>, sep: char, cur: Seq<char>)
    ensures
        split_from(s, sep, cur).len() == 1 ==> split_from(s, sep, cur)[0] == cur + s,
    decreases s.len(),
{
    if s.len() == 0 {
        assert(cur + s =~= cur);
    } else if s[0] == sep {
        lemma_split_from_nonempty(s.drop_first(), sep, Seq::empty());
    } else {
        lemma_split_from_single(s.drop_first(), sep, cur.push(s[0]));
        assert(cur.push(s[0]) + s.drop_first() =~= cur + s);
    }
}

/// A text that is not empty has at least one line.
pub proof fn lemma_lines_nonempty(s: Seq<char>)
    requires
        s.len() > 0,
    ensures
        lines(s).len() > 0,
{
    lemma_split_from_nonempty(s, '\n', Seq::empty());
    lemma_split_from_single(s, '\n', Seq::empty());
    let parts = split(s, '\n');
    if parts.len() == 1 {
        assert(Seq::<char>::empty() + s =~= s);
    }
}

proof fn lemma_join_prepend(x: Seq<char>, parts: Seq<Seq<char>>, sep: Seq<char>)
    requires
        parts.len() > 0,
    ensures
        join(seq![x] + parts, sep) == x + sep + join(parts, sep),
    decreases parts.len(),
{
    let all = seq![x] + parts;
    assert(all.last() == parts.last());
    if parts.len() == 1 {
        assert(all.drop_last() =~= seq![x]);
        assert(join(seq![x], sep) == x);
        assert(join(parts, sep) == parts[0]);
    } else {
        assert(all.drop_last() =~= seq![x] + parts.drop_last());
        assert(join(parts, sep) == join(parts.drop_last(), sep) + sep + parts.last());
        lemma_join_prepend(x, parts.drop_last(), sep);
        assert(x + sep + join(parts.drop_last(), sep) + sep + parts.last() =~= x + sep + (join(
            parts.drop_last(),
            sep,
        ) + sep + parts.last()));
    }
}

proof fn lemma_join_split_from(s: Seq<char>, sep: char, cur: Seq<char>)
    ensures
        join(split_from(s, sep, cur), seq![sep]) == cur + s,
    decreases s.len(),
{
    if s.len() == 0 {
        assert(cur + s =~= cur);
    } else if s[0] == sep {
        lemma_split_from_nonempty(s.drop_first(), sep, Seq::empty());
        lemma_join_split_from(s.drop_first(), sep, Seq::empty());
        lemma_join_prepend(cur, split_from(s.drop_first(), sep, Seq::empty()), seq![sep]);
        assert(cur + seq![sep] + (Seq::<char>::empty() + s.drop_first()) =~= cur + s);
    } else {
        lemma_join_split_from(s.drop_first(), sep, cur.push(s[0]));
        assert(cur.push(s[0]) + s.drop_first() =~= cur + s);
    }
}

proof fn lemma_split_from_without(s: Seq<char>, sep: char, cur: Seq<char>, c: char)
    requires
        !s.contains(c),
        !cur.contains(c),
    ensures
        forall|k: int| 0 <= k < split_from(s, sep, cur).len() ==> !(#[trigger] split_from(s, sep, cur)[k]).contains(c),
    decreases s.len(),
{
    if s.len() > 0 {
        assert(!s.drop_first().contains(c)) by {
            if s.drop_first().contains(c) {
                let i = choose|i: int| 0 <= i < s.drop_first().len() && s.drop_first()[i] == c;
                assert(s[i + 1] == c);
            }
        }
        if s[0] == sep {
            let tail = split_from(s.drop_first(), sep, Seq::empty());
            lemma_split_from_without(s.drop_first(), sep, Seq::empty(), c);
            assert(split_from(s, sep, cur) == seq![cur] + tail);
            assert forall|k: int| 0 <= k < (seq![cur] + tail).len() implies !(#[trigger] (seq![cur] + tail)[k]).contains(c) by {
                if k > 0 {
                    assert((seq![cur] + tail)[k] == tail[k - 1]);
                }
            }
        } else {
            assert(!cur.push(s[0]).contains(c)) by {
                assert(s[0] != c);
                if cur.push(s[0]).contains(c) {
                    let i = choose|i: int| 0 <= i < cur.push(s[0]).len() && cur.push(s[0])[i] == c;
                    if i < cur.len() {
                        assert(cur[i] == c);
                    }
                }
            }
            lemma_split_from_without(s.drop_first(), sep, cur.push(s[0]), c);
            assert(split_from(s, sep, cur) == split_from(s.drop_first(), sep, cur.push(s[0])));
        }
    } else {
        assert(split_from(s, sep, cur) == seq![cur]);
        assert forall|k: int| 0 <= k < split_from(s, sep, cur).len() implies !(#[trigger] split_from(s, sep, cur)[k]).contains(c) by {
            assert(k == 0);
        }
    }
}

proof fn lemma_split_from_last_nonempty(s: Seq<char>, sep: char, cur: Seq<char>)
    requires
        s.len() > 0,
        s.last() != sep,
    ensures
        split_from(s, sep, cur).len() > 0,
        split_from(s, sep, cur).last().len() > 0,
    decreases s.len(),
{
    let rest = s.drop_first();
    if rest.len() == 0 {
        assert(s[0] == s.last());
    } else {
        assert(rest.last() == s.last());
        if s[0] == sep {
            lemma_split_from_last_nonempty(rest, sep, Seq::empty());
        } else {
            lemma_split_from_last_nonempty(rest, sep, cur.push(s[0]));
        }
    }
}

/// Joining the lines of a text with line feeds gives the text back where
/// it holds no carriage return and does not end with a line feed.
pub proof fn lemma_join_lines(s: Seq<char>)
    requires
        !s.contains('\r'),
        s.len() > 0,
        s.last() != '\n',
    ensures
        join(lines(s), "\n"@) == s,
{
    reveal_strlit("\n");
    let parts = split(s, '\n');
    lemma_split_from_last_nonempty(s, '\n', Seq::empty());
    lemma_split_from_without(s, '\n', Seq::empty(), '\r');
    let init = parts.drop_last();
    assert forall|k: int| 0 <= k < init.len() implies strip_cr(#[trigger] init[k]) == init[k] by {
        assert(init[k] == parts[k]);
        assert(!parts[k].contains('\r'));
        if init[k].len() > 0 {
            assert(init[k][init[k].len() - 1] == init[k].last());
        }
    }
    assert(init.map_values(|p: Seq<char>| strip_cr(p)) =~= init);
    assert(lines(s) =~= parts);
    lemma_join_split_from(s, '\n', Seq::empty());
    assert(seq!['\n'] =~= "\n"@);
    assert(Seq::<char>::empty() + s =~= s);
}

fn strip_cr_string(s: &String) -> (r: String)
    ensures
        r@ == strip_cr(s@),
{
    let v = chars_of(s.as_str());
    if v.len() > 0 && v[v.len() - 1] == '\r' {
        assert(v@.subrange(0, v@.len() - 1) =~= v@.drop_last());
        slice_string(&v, 0, v.len() - 1)
    } else {
        assert(v@.subrange(0, v@.len() as int) =~= v@);
        slice_string(&v, 0, v.len())
    }
}

/// The lines of `s`, as std's `str::lines`.
pub fn lines_of(s: &str) -> (r: Vec<String>)
    ensures
        views(r@) == lines(s@),
{
    let v = chars_of(s);
    let parts = split_chars(&v, '\n');
    proof {
        lemma_split_from_nonempty(s@, '\n', Seq::empty());
    }
    let n = parts.len();
    let ghost ps = views(parts@);
    let mut out: Vec<String> = Vec::new();
    let mut i: usize = 0;
    while i + 1 < n
        invariant
            n == parts@.len(),
            n >= 1,
            ps == views(parts@),
            ps == split(s@, '\n'),
            i + 1 <= n,
            views(out@) == ps.drop_last().take(i as int).map_values(|p: Seq<char>| strip_cr(p)),
        decreases n - i,
    {
        let line = strip_cr_string(&parts[i]);
        let ghost before = views(out@);
        out.push(line);
        assert(views(out@) =~= before.push(strip_cr(ps[i as int])));
        assert(ps.drop_last().take(i + 1).map_values(|p: Seq<char>| strip_cr(p)) =~= before.push(
            strip_cr(ps[i as int]),
        ));
        i += 1;
    }
    assert(ps.drop_last().take(i as int) =~= ps.drop_last());
    let last_len = parts[n - 1].as_str().unicode_len();
    if last_len > 0 {
        let ghost before = views(out@);
        let last = parts[n - 1].clone();
        out.push(last);
        assert(views(out@) =~= before.push(ps.last()));
    }
    out
}


/// The decimal digit for `d`.
pub open spec fn digit_char(d: nat) -> char {
    ((d + 48) as u32) as char
}

/// `n` written in decimal, as `format!("{}", n)` writes it.
pub open spec fn decimal(n: nat) -> Seq<char>
    decreases n,
{
    if n < 10 {
        seq![digit_char(n)]
    } else {
        decimal(n / 10).push(digit_char(n % 10))
    }
}

/// `n` written in decimal.
pub fn u64_to_decimal(n: u64) -> (r: String)
    ensures
        r@ == decimal(n as nat),
    decreases n,
{
    if n < 10 {
        let mut r = String::new();
        push_char(&mut r, ((n as u8) + 48) as char);
        assert(r@ =~= seq![digit_char(n as nat)]);
        r
    } else {
        let mut r = u64_to_decimal(n / 10);
        push_char(&mut r, (((n % 10) as u8) + 48) as char);
        r
    }
}

/// `c` is one of the decimal digits.
pub open spec fn is_digit(c: char) -> bool {
    '0' <= c && c <= '9'
}

/// The number that a string of decimal digits stands for.
pub open spec fn digits_value(d: Seq<char>) -> nat
    decreases d.len(),
{
    if d.len() == 0 {
        0
    } else {
        digits_value(d.drop_last()) * 10 + ((d.last() as int - 48) as nat)
    }
}

/// Every character of `d` is a decimal digit.
pub open spec fn all_digits(d: Seq<char>) -> bool {
    forall|i: int| 0 <= i < d.len() ==> is_digit(#[trigger] d[i])
}

/// `s` without one leading plus sign.
pub open spec fn unsigned_digits(s: Seq<char>) -> Seq<char> {
    if s.len() > 0 && s[0] == '+' { s.drop_first() } else { s }
}

/// What std's `str::parse` gives for an unsigned integer before its range is
/// checked: an optional `+`, then one or more decimal digits.
pub open spec fn parse_unsigned(s: Seq<char>) -> Option<nat> {
    let d = unsigned_digits(s);
    if d.len() > 0 && all_digits(d) {
        Some(digits_value(d))
    } else {
        None
    }
}

/// `s` read as a `usize`, as std's `s.parse::<usize>().ok()`.
pub fn parse_usize(s: &str) -> (r: Option<usize>)
    ensures
        r == (match parse_unsigned(s@) {
            Some(v) => if v <= usize::MAX { Some(v as usize) } else { None },
            None => None,
        }),
{
    let v = chars_of(s);
    let start: usize = if v.len() > 0 && v[0] == '+' { 1 } else { 0 };
    let ghost d = unsigned_digits(s@);
    assert(d =~= v@.skip(start as int));
    if start >= v.len() {
        return None;
    }
    let mut acc: usize = 0;
    let mut i: usize = start;
    let mut overflow = false;
    while i < v.len()
        invariant
            v@ == s@,
            start <= i <= v@.len(),
            d == v@.skip(start as int),
            d == unsigned_digits(s@),
            forall|k: int| start <= k < i ==> is_digit(#[trigger] v@[k]),
            !overflow ==> acc == digits_value(v@.subrange(start as int, i as int)),
            overflow ==> digits_value(v@.subrange(start as int, i as int)) > usize::MAX,
        decreases v@.len() - i,
    {
        let c = v[i];
        if !('0' <= c && c <= '9') {
            assert(d[i - start] == v@[i as int]);
            assert(!is_digit(d[i - start]));
            assert(!all_digits(d));
            return None;
        }
        let dv = (c as u32 - 48) as usize;
        let ghost prefix = v@.subrange(start as int, i + 1);
        assert(prefix.drop_last() =~= v@.subrange(start as int, i as int));
        assert(prefix.last() == c);
        if !overflow {
            if acc > (usize::MAX - dv) / 10 {
                overflow = true;
                assert(digits_value(prefix) == acc * 10 + dv);
                assert(acc * 10 + dv > usize::MAX) by (nonlinear_arith)
                    requires acc > (usize::MAX - dv) / 10, dv <= 9;
            } else {
                assert(acc * 10 + dv <= usize::MAX) by (nonlinear_arith)
                    requires acc <= (usize::MAX - dv) / 10, dv <= 9;
                acc = acc * 10 + dv;
            }
        } else {
            assert(digits_value(prefix) >= digits_value(prefix.drop_last())) by (nonlinear_arith)
                requires digits_value(prefix) == digits_value(prefix.drop_last()) * 10 + ((prefix.last() as int - 48) as nat);
        }
        i += 1;
    }
    assert(v@.subrange(start as int, v@.len() as int) =~= d);
    assert(all_digits(d)) by {
        assert forall|k: int| 0 <= k < d.len() implies is_digit(#[trigger] d[k]) by {
            assert(d[k] == v@[k + start]);
        }
    }
    if overflow {
        None
    } else {
        Some(acc)
    }
}


/// The position of the first `c` in `s`, or the length of `s` where there is none.
pub open spec fn first_index(s: Seq<char>, c: char) -> int
    decreases s.len(),
{
    if s.len() == 0 {
        0
    } else if s[0] == c {
        0
    } else {
        1 + first_index(s.drop_first(), c)
    }
}

proof fn lemma_first_index(s: Seq<char>, c: char, i: int)
    requires
        0 <= i <= s.len(),
        forall|k: int| 0 <= k < i ==> #[trigger] s[k] != c,
        i == s.len() || s[i] == c,
    ensures
        first_index(s, c) == i,
    decreases i,
{
    if i > 0 {
        assert forall|k: int| 0 <= k < i - 1 implies #[trigger] s.drop_first()[k] != c by {
            assert(s.drop_first()[k] == s[k + 1]);
        }
        lemma_first_index(s.drop_first(), c, i - 1);
    }
}

/// Where `c` first stands at `i`, the first index of `c` is `i`.
pub proof fn lemma_first_index_at(s: Seq<char>, c: char, i: int)
    requires
        0 <= i <= s.len(),
        forall|k: int| 0 <= k < i ==> #[trigger] s[k] != c,
        i == s.len() || s[i] == c,
    ensures
        first_index(s, c) == i,
{
    lemma_first_index(s, c, i);
}

/// The position of the first `c` in `v`, or its length where there is none.
pub fn find_char(v: &Vec<char>, c: char) -> (r: usize)
    ensures
        r as int == first_index(v@, c),
        r <= v@.len(),
{
    let mut i: usize = 0;
    while i < v.len() && v[i] != c
        invariant
            i <= v@.len(),
            forall|k: int| 0 <= k < i ==> #[trigger] v@[k] != c,
        decreases v@.len() - i,
    {
        i += 1;
    }
    proof {
        lemma_first_index(v@, c, i as int);
    }
    i
}

/// The characters of `v` from `lo` up to `hi`.
pub fn sub_chars(v: &Vec<char>, lo: usize, hi: usize) -> (r: Vec<char>)
    requires
        lo <= hi <= v@.len(),
    ensures
        r@ == v@.subrange(lo as int, hi as int),
{
    let mut r: Vec<char> = Vec::new();
    let mut i: usize = lo;
    while i < hi
        invariant
            lo <= i <= hi <= v@.len(),
            r@ == v@.subrange(lo as int, i as int),
        decreases hi - i,
    {
        r.push(v[i]);
        assert(v@.subrange(lo as int, i + 1) =~= v@.subrange(lo as int, i as int).push(v@[i as int]));
        i += 1;
    }
    r
}

/// `v` without the white space at either end.
pub fn trim_chars(v: &Vec<char>) -> (r: Vec<char>)
    ensures
        r@ == trim(v@),
{
    let (lo, hi) = trim_bounds(v);
    sub_chars(v, lo, hi)
}


/// `s` with every occurrence of `pat`, read from the left without overlap,
/// replaced by `rep`, as std's `str::replace` for a non-empty pattern.
pub open spec fn replace_all(s: Seq<char>, pat: Seq<char>, rep: Seq<char>) -> Seq<char>
    decreases s.len(),
{
    if pat.len() == 0 || s.len() < pat.len() {
        s
    } else if s.take(pat.len() as int) == pat {
        rep + replace_all(s.skip(pat.len() as int), pat, rep)
    } else {
        seq![s[0]] + replace_all(s.drop_first(), pat, rep)
    }
}

/// `s` with every occurrence of `pat` replaced by `rep`.
pub fn replace_chars(s: &Vec<char>, pat: &Vec<char>, rep: &Vec<char>) -> (r: Vec<char>)
    requires
        pat@.len() > 0,
    ensures
        r@ == replace_all(s@, pat@, rep@),
{
    let mut out: Vec<char> = Vec::new();
    let mut i: usize = 0;
    assert(s@.skip(0) =~= s@);
    while i < s.len()
        invariant
            pat@.len() > 0,
            i <= s@.len(),
            out@ + replace_all(s@.skip(i as int), pat@, rep@) == replace_all(s@, pat@, rep@),
        decreases s@.len() - i,
    {
        let ghost rest = s@.skip(i as int);
        if pat.len() <= s.len() - i && occurs_at_exec(s, pat, i) {
            assert(rest.take(pat@.len() as int) =~= s@.subrange(i as int, i + pat@.len()));
            assert(rest.skip(pat@.len() as int) =~= s@.skip(i + pat@.len()));
            let mut k: usize = 0;
            let ghost before = out@;
            while k < rep.len()
                invariant
                    k <= rep@.len(),
                    out@ == before + rep@.take(k as int),
                decreases rep@.len() - k,
            {
                out.push(rep[k]);
                assert(rep@.take(k + 1) =~= rep@.take(k as int).push(rep@[k as int]));
                k += 1;
            }
            assert(rep@.take(rep@.len() as int) =~= rep@);
            assert(before + (rep@ + replace_all(s@.skip(i + pat@.len()), pat@, rep@)) =~= out@
                + replace_all(s@.skip(i + pat@.len()), pat@, rep@));
            i += pat.len();
        } else {
            proof {
                if pat@.len() <= rest.len() {
                    assert(rest.take(pat@.len() as int) =~= s@.subrange(i as int, i + pat@.len()));
                }
            }
            assert(rest.drop_first() =~= s@.skip(i + 1));
            let ghost before = out@;
            out.push(s[i]);
            assert(before + (seq![s@[i as int]] + replace_all(s@.skip(i + 1), pat@, rep@)) =~= out@
                + replace_all(s@.skip(i + 1), pat@, rep@));
            i += 1;
        }
    }
    assert(s@.skip(i as int) =~= Seq::<char>::empty());
    assert(out@ + Seq::<char>::empty() =~= out@);
    out
}


/// `s` without its last character, `s` itself where it is empty.
pub open spec fn popped(s: Seq<char>) -> Seq<char> {
    if s.len() == 0 {
        s
    } else {
        s.drop_last()
    }
}

/// Removes the last character, if there is one (std's `String::pop`).
pub fn pop_char(s: &mut String)
    ensures
        final(s)@ == popped(old(s)@),
{
    let v = chars_of(s.as_str());
    if v.len() > 0 {
        assert(v@.subrange(0, v@.len() - 1) =~= v@.drop_last());
        *s = slice_string(&v, 0, v.len() - 1);
    }
}

/// The number of characters in `s`.
pub fn char_count(s: &String) -> (r: usize)
    ensures
        r == s@.len(),
{
    s.as_str().unicode_len()
}

/// The text before byte `col` of the UTF-8 form of `s`.
pub open spec fn before_byte(s: Seq<char>, col: int) -> Seq<char> {
    decode_utf8(encode_utf8(s).take(col))
}

/// The text from byte `col` of the UTF-8 form of `s` on.
pub open spec fn from_byte(s: Seq<char>, col: int) -> Seq<char> {
    decode_utf8(encode_utf8(s).skip(col))
}

/// Byte `col` of the UTF-8 form of `s` starts a character or ends the text.
pub open spec fn on_boundary(s: Seq<char>, col: int) -> bool {
    is_char_boundary(encode_utf8(s), col)
}

/// The UTF-8 form of two texts one after the other is their forms one
/// after the other.
pub proof fn lemma_encode_concat(a: Seq<char>, b: Seq<char>)
    ensures
        encode_utf8(a + b) == encode_utf8(a) + encode_utf8(b),
    decreases a.len(),
{
    if a.len() == 0 {
        assert(a + b =~= b);
        assert(encode_utf8(a) + encode_utf8(b) =~= encode_utf8(b));
    } else {
        assert((a + b).drop_first() =~= a.drop_first() + b);
        assert((a + b)[0] == a[0]);
        lemma_encode_concat(a.drop_first(), b);
        assert(encode_scalar(a[0] as u32) + (encode_utf8(a.drop_first()) + encode_utf8(b))
            =~= encode_utf8(a) + encode_utf8(b));
    }
}

/// Cut at a character boundary, a text falls into the text before and the
/// text after, whose UTF-8 forms are the bytes before and after the cut.
pub proof fn lemma_split_at_boundary(s: Seq<char>, col: int)
    requires
        on_boundary(s, col),
    ensures
        0 <= col <= encode_utf8(s).len(),
        encode_utf8(before_byte(s, col)) == encode_utf8(s).take(col),
        encode_utf8(from_byte(s, col)) == encode_utf8(s).skip(col),
        before_byte(s, col) + from_byte(s, col) == s,
{
    broadcast use vstd::utf8::group_utf8_lib;
    let b = encode_utf8(s);
    if col < 0 || col > b.len() {
        if col != 0 {
            assert(!is_char_boundary(b, col));
        }
    }
    valid_utf8_split(b, col);
    decode_utf8_split(b, col);
    decode_utf8_encode_utf8(b.subrange(0, col));
    decode_utf8_encode_utf8(b.subrange(col, b.len() as int));
}

/// Where two texts meet is a character boundary of the two together.
pub proof fn lemma_boundary_at_join(a: Seq<char>, b: Seq<char>)
    ensures
        on_boundary(a + b, encode_utf8(a).len() as int),
{
    broadcast use vstd::utf8::group_utf8_lib;
    lemma_encode_concat(a, b);
    let x = encode_utf8(a);
    let y = encode_utf8(b);
    assert(encode_utf8(a + b) == x + y);
    if y.len() == 0 {
        assert(x + y =~= x);
        is_char_boundary_start_end_of_seq(x);
    } else {
        is_char_boundary_start_end_of_seq(y);
        is_char_boundary_iff_not_is_continuation_byte(y, 0);
        assert((x + y)[x.len() as int] == y[0]);
        is_char_boundary_iff_not_is_continuation_byte(x + y, x.len() as int);
    }
}

/// `s` cut at byte `col`: the text before and the text after.
pub fn split_at_byte(s: &String, col: usize) -> (r: (String, String))
    requires
        on_boundary(s@, col as int),
    ensures
        r.0@ == before_byte(s@, col as int),
        r.1@ == from_byte(s@, col as int),
{
    proof {
        broadcast use vstd::utf8::group_utf8_lib;
        lemma_split_at_boundary(s@, col as int);
    }
    let (h, t) = s.as_str().split_at(col);
    proof {
        assert(encode_utf8(h@) == encode_utf8(s@).take(col as int));
        assert(encode_utf8(t@) == encode_utf8(s@).skip(col as int));
        encode_utf8_decode_utf8(h@);
        encode_utf8_decode_utf8(t@);
    }
    (String::from_str(h), String::from_str(t))
}

/// `s` with `c` put in at byte `col`, as std's `String::insert`.
pub fn insert_at_byte(s: &String, col: usize, c: char) -> (r: String)
    requires
        on_boundary(s@, col as int),
    ensures
        r@ == before_byte(s@, col as int).push(c) + from_byte(s@, col as int),
{
    let (mut r, tail) = split_at_byte(s, col);
    push_char(&mut r, c);
    r.append(tail.as_str());
    r
}

/// `s` without the character that starts at byte `col`, as std's
/// `String::remove`.
pub fn remove_at_byte(s: &String, col: usize) -> (r: String)
    requires
        on_boundary(s@, col as int),
        col < encode_utf8(s@).len(),
    ensures
        r@ == before_byte(s@, col as int) + from_byte(s@, col as int).drop_first(),
{
    proof {
        lemma_split_at_boundary(s@, col as int);
    }
    let (mut r, tail) = split_at_byte(s, col);
    let v = chars_of(tail.as_str());
    if v.len() == 0 {
        assert(encode_utf8(tail@) =~= Seq::<u8>::empty());
        assert(false);
    }
    let rest = slice_string(&v, 1, v.len());
    assert(v@.subrange(1, v@.len() as int) =~= tail@.drop_first());
    r.append(rest.as_str());
    r
}

} // verus!
