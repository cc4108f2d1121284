//! Character-indexed string editing helpers.
//!
//! Every cursor and offset in this crate counts characters, not bytes, so
//! the helpers here all speak about `Seq<char>` views.

use vstd::prelude::*;

verus! {

/// Relies on `String::push`: appends the given character to the end of the string.
#[verifier::external_body]
pub fn push_char(s: &mut String, c: char)
    ensures
        final(s)@ == old(s)@.push(c),
{
    s.push(c);
}

/// Copy of the characters of `s` in the range `[from, to)`.
pub fn substring(s: &String, from: usize, to: usize) -> (r: String)
    requires
        from <= to <= s@.len(),
    ensures
        r@ == s@.subrange(from as int, to as int),
{
    s.as_str().substring_char(from, to).to_owned()
}

/// The character at position `i` of `s`.
pub fn char_at(s: &String, i: usize) -> (c: char)
    requires
        i < s@.len(),
    ensures
        c == s@[i as int],
{
    s.as_str().get_char(i)
}

/// The number of characters in `s`.
pub fn char_len(s: &String) -> (n: usize)
    ensures
        n == s@.len(),
{
    s.as_str().unicode_len()
}

/// `a` followed by `b`.
pub fn concat(a: &String, b: &String) -> (r: String)
    ensures
        r@ == a@ + b@,
{
    let mut r = a.clone();
    r.append(b.as_str());
    r
}

/// `s` with `c` inserted so that it becomes the character at position `i`.
pub fn insert_char_at(s: &String, i: usize, c: char) -> (r: String)
    requires
        i <= s@.len(),
    ensures
        r@ == s@.insert(i as int, c),
{
    let n = char_len(s);
    let mut r = substring(s, 0, i);
    push_char(&mut r, c);
    r.append(s.as_str().substring_char(i, n));
    proof {
        assert(r@ =~= s@.insert(i as int, c));
    }
    r
}

/// `s` with the character at position `i` removed.
pub fn remove_char_at(s: &String, i: usize) -> (r: String)
    requires
        i < s@.len(),
    ensures
        r@ == s@.remove(i as int),
{
    let n = char_len(s);
    let mut r = substring(s, 0, i);
    r.append(s.as_str().substring_char(i + 1, n));
    proof {
        assert(r@ =~= s@.remove(i as int));
    }
    r
}

/// Whether the sequences of characters of `a` and `b` are equal.
pub fn string_eq(a: &String, b: &String) -> (r: bool)
    ensures
        r == (a@ == b@),
{
    a.eq(b)
}

/// A copy of `v` (the views of the copies are equal element by element).
pub fn clone_lines(v: &Vec<String>) -> (r: Vec<String>)
    ensures
        r.deep_view() == v.deep_view(),
{
    let mut r: Vec<String> = Vec::new();
    let mut i: usize = 0;
    while i < v.len()
        invariant
            i <= v.len(),
            r.len() == i,
            forall|j: int| 0 <= j < i ==> r.deep_view()[j] == v.deep_view()[j],
        decreases v.len() - i,
    {
        r.push(v[i].clone());
        i += 1;
    }
    proof {
        assert(r.deep_view() =~= v.deep_view());
    }
    r
}

/// The pieces joined by the separator sequence.
pub open spec fn join_lines(lines: Seq<Seq<char>>, sep: Seq<char>) -> Seq<char>
    decreases lines.len(),
{
    if lines.len() == 0 {
        Seq::empty()
    } else if lines.len() == 1 {
        lines[0]
    } else {
        lines[0] + sep + join_lines(lines.drop_first(), sep)
    }
}

/// Joining one more piece appends a separator and that piece.
pub proof fn lemma_join_lines_snoc(lines: Seq<Seq<char>>, i: int, sep: Seq<char>)
    requires
        1 <= i < lines.len(),
    ensures
        join_lines(lines.subrange(0, i + 1), sep) == join_lines(lines.subrange(0, i), sep) + sep
            + lines[i],
    decreases i,
{
    if i == 1 {
        assert(lines.subrange(0, 2) =~= seq![lines[0], lines[1]]);
        assert(lines.subrange(0, 2).drop_first() =~= seq![lines[1]]);
        assert(lines.subrange(0, 1) =~= seq![lines[0]]);
        assert(join_lines(seq![lines[1]], sep) == lines[1]);
        assert(join_lines(lines.subrange(0, 2), sep) =~= lines[0] + sep + lines[1]);
    } else {
        lemma_join_lines_snoc(lines.drop_first(), i - 1, sep);
        assert(lines.subrange(0, i + 1).drop_first() =~= lines.drop_first().subrange(0, i));
        assert(lines.subrange(0, i).drop_first() =~= lines.drop_first().subrange(0, i - 1));
        assert(lines.drop_first().subrange(0, i)[i - 1] == lines[i]);
        assert(join_lines(lines.subrange(0, i + 1), sep) == lines.subrange(0, i + 1)[0] + sep
            + join_lines(lines.subrange(0, i + 1).drop_first(), sep));
        assert(join_lines(lines.subrange(0, i), sep) == lines.subrange(0, i)[0] + sep
            + join_lines(lines.subrange(0, i).drop_first(), sep));
        assert(join_lines(lines.subrange(0, i + 1), sep) =~= join_lines(lines.subrange(0, i), sep)
            + sep + lines[i]);
    }
}

/// The lines of `v` joined by `sep`.
pub fn join_with(v: &Vec<String>, sep: &str) -> (r: String)
    ensures
        r@ == join_lines(v.deep_view(), sep@),
{
    if v.len() == 0 {
        return String::new();
    }
    let mut r = v[0].clone();
    let mut i: usize = 1;
    while i < v.len()
        invariant
            1 <= i <= v.len(),
            r@ == join_lines(v.deep_view().subrange(0, i as int), sep@),
        decreases v.len() - i,
    {
        proof {
            lemma_join_lines_snoc(v.deep_view(), i as int, sep@);
        }
        r.append(sep);
        r.append(v[i].as_str());
        i += 1;
    }
    proof {
        assert(v.deep_view().subrange(0, v.deep_view().len() as int) =~= v.deep_view());
    }
    r
}

/// Whether a character has the Unicode White_Space property.
pub uninterp spec fn is_unicode_whitespace(c: char) -> bool;

/// Relies on `char::is_whitespace`: whether the character has the Unicode
/// White_Space property, which depends on the character alone. Its
/// documentation lists the property's code points: the space, tab and
/// line-break characters carry it, and nothing strictly between the
/// space and the next-line control does.
#[verifier::external_body]
pub fn char_is_whitespace(c: char) -> (r: bool)
    ensures
        r == is_unicode_whitespace(c),
        c == ' ' ==> r,
        c == '\t' ==> r,
        c == '\n' ==> r,
        c == '\r' ==> r,
        c as u32 > 0x20 ==> c as u32 >= 0x85 || !r,
{
    c.is_whitespace()
}

/// `s` with every non-overlapping occurrence of the two-character pattern
/// `ab` replaced by `val`, scanning from the left.
pub open spec fn replace_pair(s: Seq<char>, a: char, b: char, val: Seq<char>) -> Seq<char>
    decreases s.len(),
{
    if s.len() < 2 {
        s
    } else if s[0] == a && s[1] == b {
        val + replace_pair(s.skip(2), a, b, val)
    } else {
        seq![s[0]] + replace_pair(s.skip(1), a, b, val)
    }
}

/// The first index at or after `i` where the two-character pattern `ab`
/// occurs in `s`, if any.
pub open spec fn first_pair_from(s: Seq<char>, a: char, b: char, i: int) -> Option<int>
    decreases s.len() - i,
{
    if i < 0 || i + 2 > s.len() {
        None
    } else if s[i] == a && s[i + 1] == b {
        Some(i)
    } else {
        first_pair_from(s, a, b, i + 1)
    }
}

/// `s` with every non-overlapping occurrence of `ab` replaced by `val`.
pub fn replace_pair_exec(s: &str, a: char, b: char, val: &String) -> (r: String)
    ensures
        r@ == replace_pair(s@, a, b, val@),
{
    let n = s.unicode_len();
    let mut r = String::new();
    let mut i: usize = 0;
    proof {
        assert(s@.skip(0) =~= s@);
        assert(r@ + replace_pair(s@, a, b, val@) =~= replace_pair(s@, a, b, val@));
    }
    while i < n
        invariant
            i <= n,
            n == s@.len(),
            replace_pair(s@, a, b, val@) == r@ + replace_pair(s@.skip(i as int), a, b, val@),
        decreases n - i,
    {
        let c = s.get_char(i);
        if i + 1 < n && c == a && s.get_char(i + 1) == b {
            r.append(val.as_str());
            proof {
                assert(s@.skip(i as int).skip(2) =~= s@.skip(i + 2));
            }
            i += 2;
        } else {
            push_char(&mut r, c);
            proof {
                assert(s@.skip(i as int).skip(1) =~= s@.skip(i + 1));
                if i + 1 == n {
                    assert(s@.skip(i as int) =~= seq![s@[i as int]]);
                    assert(s@.skip(i + 1) =~= Seq::<char>::empty());
                } else {
                    assert(seq![s@.skip(i as int)[0]] + replace_pair(s@.skip(i + 1), a, b, val@)
                        == replace_pair(s@.skip(i as int), a, b, val@));
                }
            }
            i += 1;
        }
    }
    proof {
        assert(s@.skip(n as int) =~= Seq::<char>::empty());
        assert(r@ =~= r@ + replace_pair(s@.skip(n as int), a, b, val@));
    }
    r
}

/// The first index where `ab` occurs in `s`, or the length of `s` if it
/// does not occur.
pub fn find_pair_or_len(s: &str, a: char, b: char) -> (r: usize)
    ensures
        match first_pair_from(s@, a, b, 0) {
            Some(i) => r == i,
            None => r == s@.len(),
        },
{
    let n = s.unicode_len();
    let mut i: usize = 0;
    while i < n && i + 1 < n
        invariant
            i <= n,
            n == s@.len(),
            first_pair_from(s@, a, b, 0) == first_pair_from(s@, a, b, i as int),
        decreases n - i,
    {
        if s.get_char(i) == a && s.get_char(i + 1) == b {
            return i;
        }
        i += 1;
    }
    n
}

/// `s` with leading characters satisfying `is_unicode_whitespace`
/// removed.
pub open spec fn trim_start_ws(s: Seq<char>) -> Seq<char>
    decreases s.len(),
{
    if s.len() > 0 && is_unicode_whitespace(s[0]) {
        trim_start_ws(s.drop_first())
    } else {
        s
    }
}

/// `s` with trailing characters satisfying `is_unicode_whitespace`
/// removed.
pub open spec fn trim_end_ws(s: Seq<char>) -> Seq<char>
    decreases s.len(),
{
    if s.len() > 0 && is_unicode_whitespace(s.last()) {
        trim_end_ws(s.drop_last())
    } else {
        s
    }
}

/// `s` with whitespace removed from both ends.
pub open spec fn trim_ws(s: Seq<char>) -> Seq<char> {
    trim_end_ws(trim_start_ws(s))
}

/// `s` with its leading `strip` characters removed.
pub open spec fn trim_start_char(s: Seq<char>, strip: char) -> Seq<char>
    decreases s.len(),
{
    if s.len() > 0 && s[0] == strip {
        trim_start_char(s.drop_first(), strip)
    } else {
        s
    }
}

/// A copy of `s` with whitespace removed from both ends.
pub fn trim_whitespace(s: &String) -> (r: String)
    ensures
        r@ == trim_ws(s@),
{
    let n = char_len(s);
    let mut a: usize = 0;
    proof {
        assert(s@.skip(0) =~= s@);
    }
    while a < n && char_is_whitespace(char_at(s, a))
        invariant
            a <= n,
            n == s@.len(),
            trim_start_ws(s@) == trim_start_ws(s@.skip(a as int)),
        decreases n - a,
    {
        proof {
            assert(s@.skip(a as int).drop_first() =~= s@.skip(a + 1));
        }
        a += 1;
    }
    proof {
        if a < n {
            assert(trim_start_ws(s@.skip(a as int)) == s@.skip(a as int));
        } else {
            assert(s@.skip(a as int) =~= Seq::<char>::empty());
        }
        assert(trim_start_ws(s@) == s@.skip(a as int));
    }
    let mut b: usize = n;
    proof {
        assert(s@.skip(a as int) =~= s@.subrange(a as int, n as int));
    }
    while b > a && char_is_whitespace(char_at(s, b - 1))
        invariant
            a <= b <= n,
            n == s@.len(),
            trim_start_ws(s@) == s@.skip(a as int),
            trim_end_ws(s@.skip(a as int)) == trim_end_ws(s@.subrange(a as int, b as int)),
        decreases b,
    {
        proof {
            assert(s@.subrange(a as int, b as int).last() == s@[b - 1]);
            assert(s@.subrange(a as int, b as int).drop_last() =~= s@.subrange(a as int, b - 1));
        }
        b -= 1;
    }
    proof {
        if b > a {
            assert(s@.subrange(a as int, b as int).last() == s@[b - 1]);
            assert(trim_end_ws(s@.subrange(a as int, b as int)) == s@.subrange(a as int, b as int));
        } else {
            assert(s@.subrange(a as int, b as int) =~= Seq::<char>::empty());
        }
        assert(s@.skip(a as int) =~= s@.subrange(a as int, n as int));
    }
    substring(s, a, b)
}

/// A copy of `s` with leading `strip` characters removed.
pub fn trim_start_matching(s: &String, strip: char) -> (r: String)
    ensures
        r@ == trim_start_char(s@, strip),
{
    let n = char_len(s);
    let mut a: usize = 0;
    proof {
        assert(s@.skip(0) =~= s@);
    }
    while a < n && char_at(s, a) == strip
        invariant
            a <= n,
            n == s@.len(),
            trim_start_char(s@, strip) == trim_start_char(s@.skip(a as int), strip),
        decreases n - a,
    {
        proof {
            assert(s@.skip(a as int).drop_first() =~= s@.skip(a + 1));
        }
        a += 1;
    }
    proof {
        if a < n {
            assert(trim_start_char(s@.skip(a as int), strip) == s@.skip(a as int));
        } else {
            assert(s@.skip(a as int) =~= Seq::<char>::empty());
        }
        assert(trim_start_char(s@, strip) == s@.skip(a as int));
        assert(s@.skip(a as int) =~= s@.subrange(a as int, n as int));
    }
    substring(s, a, n)
}

/// Whether `a` and `b` hold the same lines.
pub fn lines_eq(a: &Vec<String>, b: &Vec<String>) -> (r: bool)
    ensures
        r == (a.deep_view() == b.deep_view()),
{
    if a.len() != b.len() {
        proof {
            assert(a.deep_view().len() == a@.len());
            assert(b.deep_view().len() == b@.len());
        }
        return false;
    }
    let mut i: usize = 0;
    while i < a.len()
        invariant
            i <= a.len(),
            a.len() == b.len(),
            forall|j: int| 0 <= j < i ==> a.deep_view()[j] == b.deep_view()[j],
        decreases a.len() - i,
    {
        if !string_eq(&a[i], &b[i]) {
            proof {
                assert(a.deep_view()[i as int] != b.deep_view()[i as int]);
            }
            return false;
        }
        i += 1;
    }
    proof {
        assert(a.deep_view() =~= b.deep_view());
    }
    true
}

} // verus!
