//! Helpers on text.
use vstd::prelude::*;
use vstd::std_specs::iter::IteratorSpec;

verus! {

broadcast use vstd::std_specs::vec::group_vec_axioms, vstd::string::group_string_axioms;

/// Whether two texts are equal.
pub fn same_text(a: &str, b: &str) -> (r: bool)
    ensures
        r == (a@ == b@),
{
    let x: String = a.to_owned();
    let y: String = b.to_owned();
    x == y
}

/// An owned copy of a text.
pub fn copy_str(s: &str) -> (r: String)
    ensures
        r@ == s@,
{
    s.to_owned()
}

/// The characters of a text.
pub fn chars_of(s: &str) -> (r: Vec<char>)
    ensures
        r@ == s@,
{
    let mut out: Vec<char> = Vec::new();
    let n = s.unicode_len();
    let mut it = s.chars();
    let mut i: usize = 0;
    while i < n
        invariant
            n == s@.len(),
            out.len() == i,
            i <= n,
            out@ + it.remaining() == s@,
        decreases n - i,
    {
        match it.next() {
            Some(c) => {
                out.push(c);
            },
            None => {},
        }
        i += 1;
    }
    assert(out@ =~= s@);
    out
}

/// Appends the characters of a text.
pub fn push_str(out: &mut Vec<char>, s: &str)
    ensures
        final(out)@ == old(out)@ + s@,
{
    let cs = chars_of(s);
    push_chars(out, &cs);
}

/// Appends characters.
pub fn push_chars(out: &mut Vec<char>, cs: &Vec<char>)
    ensures
        final(out)@ == old(out)@ + cs@,
{
    let ghost start = out@;
    let mut i: usize = 0;
    while i < cs.len()
        invariant
            i <= cs.len(),
            out@ == start + cs@.take(i as int),
        decreases cs.len() - i,
    {
        out.push(cs[i]);
        i += 1;
        assert(out@ =~= start + cs@.take(i as int));
    }
    assert(cs@.take(cs.len() as int) =~= cs@);
}

/// The text made of the given characters.
///
/// Relies on `String`'s `FromIterator<char>`: the text holds the characters in order.
#[verifier::external_body]
pub(crate) fn text_of(cs: &Vec<char>) -> (r: String)
    ensures
        r@ == cs@,
{
    cs.iter().collect()
}

/// The text of `a` followed by `b`.
pub fn concat(a: &str, b: &str) -> (r: String)
    ensures
        r@ == a@ + b@,
{
    let mut out = chars_of(a);
    push_str(&mut out, b);
    text_of(&out)
}

/// Whether `s` begins with `p`.
pub open spec fn starts_with(s: Seq<char>, p: Seq<char>) -> bool {
    p.len() <= s.len() && s.take(p.len() as int) == p
}

/// Whether a text begins with a prefix.
pub fn has_prefix(s: &str, p: &str) -> (r: bool)
    ensures
        r == starts_with(s@, p@),
{
    let pc = chars_of(p);
    let mut it = s.chars();
    let mut i: usize = 0;
    while i < pc.len()
        invariant
            i <= pc.len(),
            pc@ == p@,
            s@.take(i as int) == pc@.take(i as int),
            it.remaining() == s@.skip(i as int),
            i <= s@.len(),
        decreases pc.len() - i,
    {
        match it.next() {
            Some(c) => {
                if c != pc[i] {
                    assert(s@[i as int] == c);
                    assert(!starts_with(s@, p@)) by {
                        if pc.len() <= s@.len() {
                            assert(s@.take(pc.len() as int)[i as int] == s@[i as int]);
                        }
                    }
                    return false;
                }
                assert(s@.take(i + 1) =~= s@.take(i as int).push(c));
                assert(pc@.take(i + 1) =~= pc@.take(i as int).push(pc@[i as int]));
                assert(s@.skip(i + 1) =~= s@.skip(i as int).drop_first());
                i += 1;
            },
            None => {
                return false;
            },
        }
    }
    assert(pc@.take(pc.len() as int) =~= pc@);
    true
}

/// The first position of `c` in `s` at or after `from`.
pub fn find_char(s: &Vec<char>, c: char, from: usize) -> (r: Option<usize>)
    ensures
        r matches Some(i) ==> from <= i < s.len() && s@[i as int] == c && forall|j: int|
            from <= j < i ==> s@[j] != c,
        r is None ==> forall|j: int| from <= j < s.len() ==> s@[j] != c,
{
    let mut i: usize = from;
    while i < s.len()
        invariant
            from <= i,
            forall|j: int| from <= j < i ==> s@[j] != c,
        decreases s.len() - i,
    {
        if s[i] == c {
            return Some(i);
        }
        i += 1;
    }
    None
}

/// The characters of `s` from `a` to `b`.
pub fn slice_chars(s: &Vec<char>, a: usize, b: usize) -> (r: Vec<char>)
    requires
        a <= b <= s.len(),
    ensures
        r@ == s@.subrange(a as int, b as int),
{
    let mut out: Vec<char> = Vec::new();
    let mut i: usize = a;
    while i < b
        invariant
            a <= i <= b,
            b <= s.len(),
            out@ == s@.subrange(a as int, i as int),
        decreases b - i,
    {
        out.push(s[i]);
        i += 1;
        assert(out@ =~= s@.subrange(a as int, i as int));
    }
    out
}

/// Whether `needle` occurs in `s`.
pub open spec fn contains(s: Seq<char>, needle: Seq<char>) -> bool {
    exists|i: int| 0 <= i <= s.len() - needle.len() && #[trigger] s.subrange(i, i + needle.len()) == needle
}

/// Whether a text occurs in another.
pub fn has_substring(s: &str, needle: &str) -> (r: bool)
    ensures
        r == contains(s@, needle@),
{
    let sc = chars_of(s);
    let nc = chars_of(needle);
    if nc.len() == 0 {
        assert(s@.subrange(0, 0int + needle@.len()) =~= needle@);
        return true;
    }
    if nc.len() > sc.len() {
        return false;
    }
    let mut i: usize = 0;
    while i <= sc.len() - nc.len()
        invariant
            sc@ == s@,
            nc@ == needle@,
            1 <= nc.len() <= sc.len(),
            forall|k: int| 0 <= k < i ==> #[trigger] s@.subrange(k, k + needle@.len()) != needle@,
        decreases sc.len() - i,
    {
        let mut j: usize = 0;
        let mut same = true;
        assert(sc@.subrange(i as int, i as int) =~= nc@.take(0));
        while j < nc.len()
            invariant
                sc@ == s@,
                nc@ == needle@,
                i + nc.len() <= sc.len(),
                j <= nc.len(),
                same == (sc@.subrange(i as int, i + j) == nc@.take(j as int)),
            decreases nc.len() - j,
        {
            if same {
                let ghost before = sc@.subrange(i as int, i + j);
                if sc[i + j] != nc[j] {
                    same = false;
                    assert(sc@.subrange(i as int, i + j + 1)[j as int] != nc@.take(j + 1)[j as int]);
                } else {
                    assert(sc@.subrange(i as int, i + j + 1) =~= before.push(sc@[i + j]));
                    assert(nc@.take(j + 1) =~= nc@.take(j as int).push(nc@[j as int]));
                }
            } else {
                assert(sc@.subrange(i as int, i + j) == sc@.subrange(i as int, i + j + 1).take(
                    j as int,
                ));
                assert(nc@.take(j as int) == nc@.take(j + 1).take(j as int));
            }
            j += 1;
        }
        assert(nc@.take(nc.len() as int) =~= nc@);
        if same {
            return true;
        }
        i += 1;
    }
    false
}

/// What `str::to_lowercase` gives for a text.
pub uninterp spec fn lower_of(s: Seq<char>) -> Seq<char>;

/// Lower-cases a text.
///
/// Relies on `str::to_lowercase`: the result depends on the characters alone.
#[verifier::external_body]
pub(crate) fn lowercase(s: &str) -> (r: String)
    ensures
        r@ == lower_of(s@),
{
    s.to_lowercase()
}

/// Whether a character has the Unicode White_Space property, as
/// `char::is_whitespace` and `str::trim` read it.
pub open spec fn is_white_space(c: char) -> bool {
    ||| ('\t' <= c && c <= '\r')
    ||| c == ' '
    ||| c == '\u{85}'
    ||| c == '\u{a0}'
    ||| c == '\u{1680}'
    ||| ('\u{2000}' <= c && c <= '\u{200a}')
    ||| c == '\u{2028}'
    ||| c == '\u{2029}'
    ||| c == '\u{202f}'
    ||| c == '\u{205f}'
    ||| c == '\u{3000}'
}

/// A text without its leading white space.
pub open spec fn trim_start(s: Seq<char>) -> Seq<char>
    decreases s.len(),
{
    if s.len() > 0 && is_white_space(s[0]) {
        trim_start(s.drop_first())
    } else {
        s
    }
}

/// A text without its trailing white space.
pub open spec fn trim_end(s: Seq<char>) -> Seq<char>
    decreases s.len(),
{
    if s.len() > 0 && is_white_space(s.last()) {
        trim_end(s.drop_last())
    } else {
        s
    }
}

/// A text without white space at either end.
pub open spec fn trim_of(s: Seq<char>) -> Seq<char> {
    trim_end(trim_start(s))
}

/// Whether a character is white space: see [`is_white_space`].
pub fn white_space(c: char) -> (r: bool)
    ensures
        r == is_white_space(c),
{
    ('\t' <= c && c <= '\r') || c == ' ' || c == '\u{85}' || c == '\u{a0}' || c == '\u{1680}'
        || ('\u{2000}' <= c && c <= '\u{200a}') || c == '\u{2028}' || c == '\u{2029}'
        || c == '\u{202f}' || c == '\u{205f}' || c == '\u{3000}'
}

/// Drops the white space at both ends of a text.
pub fn trimmed(s: &str) -> (r: String)
    ensures
        r@ == trim_of(s@),
{
    let cs = chars_of(s);
    let n = cs.len();
    let mut i: usize = 0;
    assert(cs@.skip(0) =~= cs@);
    while i < n && white_space(cs[i])
        invariant
            cs@ == s@,
            n == cs.len(),
            i <= n,
            trim_start(s@) == trim_start(cs@.skip(i as int)),
        decreases n - i,
    {
        assert(cs@.skip(i as int).drop_first() =~= cs@.skip(i + 1));
        assert(cs@.skip(i as int)[0] == cs@[i as int]);
        i += 1;
    }
    assert(trim_start(s@) == cs@.skip(i as int)) by {
        if i == n {
            assert(cs@.skip(i as int).len() == 0);
        } else {
            assert(cs@.skip(i as int)[0] == cs@[i as int]);
        }
    }
    assert(cs@.skip(i as int) =~= cs@.subrange(i as int, n as int));
    let mut j: usize = n;
    while j > i && white_space(cs[j - 1])
        invariant
            cs@ == s@,
            n == cs.len(),
            i <= j <= n,
            trim_of(s@) == trim_end(cs@.subrange(i as int, j as int)),
        decreases j,
    {
        assert(cs@.subrange(i as int, j as int).drop_last() =~= cs@.subrange(i as int, j - 1));
        assert(cs@.subrange(i as int, j as int).last() == cs@[j - 1]);
        j -= 1;
    }
    assert(trim_end(cs@.subrange(i as int, j as int)) == cs@.subrange(i as int, j as int)) by {
        if j > i {
            assert(cs@.subrange(i as int, j as int).last() == cs@[j - 1]);
        }
    }
    let out = slice_chars(&cs, i, j);
    text_of(&out)
}

/// The digit that stands for `d`.
pub open spec fn digit(d: nat) -> char {
    if d == 0 { '0' }
    else if d == 1 { '1' }
    else if d == 2 { '2' }
    else if d == 3 { '3' }
    else if d == 4 { '4' }
    else if d == 5 { '5' }
    else if d == 6 { '6' }
    else if d == 7 { '7' }
    else if d == 8 { '8' }
    else { '9' }
}

/// The decimal digits of `n`, without leading zeros.
pub open spec fn decimal(n: nat) -> Seq<char>
    decreases n,
{
    if n < 10 {
        seq![digit(n)]
    } else {
        decimal(n / 10) + seq![digit(n % 10)]
    }
}

fn digit_char(d: u64) -> (r: char)
    requires
        d < 10,
    ensures
        r == digit(d as nat),
{
    if d == 0 { '0' } else if d == 1 { '1' } else if d == 2 { '2' } else if d == 3 { '3' }
    else if d == 4 { '4' } else if d == 5 { '5' } else if d == 6 { '6' } else if d == 7 { '7' }
    else if d == 8 { '8' } else { '9' }
}

/// Appends the decimal digits of a number.
pub fn push_decimal(out: &mut Vec<char>, n: u64)
    ensures
        final(out)@ == old(out)@ + decimal(n as nat),
    decreases n,
{
    let ghost start = out@;
    if n >= 10 {
        push_decimal(out, n / 10);
    }
    out.push(digit_char(n % 10));
    assert(out@ =~= start + decimal(n as nat));
}

/// The decimal text of a number, without leading zeros.
pub fn decimal_text(n: u64) -> (r: String)
    ensures
        r@ == decimal(n as nat),
{
    let mut out: Vec<char> = Vec::new();
    push_decimal(&mut out, n);
    assert(out@ =~= decimal(n as nat));
    text_of(&out)
}

} // verus!

verus! {

/// The position of the first `c` in `s`.
pub open spec fn first_index(s: Seq<char>, c: char) -> Option<int> {
    if exists|i: int| 0 <= i < s.len() && s[i] == c {
        Some(choose|i: int| 0 <= i < s.len() && s[i] == c && forall|j: int| 0 <= j < i ==> s[j] != c)
    } else {
        None
    }
}

/// The text before the first `c` of `s` (all of `s` where there is none).
pub open spec fn before_first(s: Seq<char>, c: char) -> Seq<char> {
    match first_index(s, c) {
        Some(i) => s.take(i),
        None => s,
    }
}

/// The text after the last `c` of `s` (all of `s` where there is none).
pub open spec fn after_last(s: Seq<char>, c: char) -> Seq<char>
    decreases s.len(),
{
    if s.len() == 0 {
        s
    } else if s.last() == c {
        seq![]
    } else {
        after_last(s.drop_last(), c).push(s.last())
    }
}

/// The position of the first `c` in a list of characters.
pub fn first_position(s: &Vec<char>, c: char) -> (r: Option<usize>)
    ensures
        r matches Some(i) ==> first_index(s@, c) == Some(i as int) && i < s.len() && s@[i as int]
            == c && forall|j: int| 0 <= j < i ==> s@[j] != c,
        r is None ==> first_index(s@, c) is None,
{
    match find_char(s, c, 0) {
        Some(i) => {
            let ghost w = choose|k: int| 0 <= k < s@.len() && s@[k] == c && forall|j: int| 0 <= j < k ==> s@[j] != c;
            assert(0 <= i < s@.len() && s@[i as int] == c && forall|j: int| 0 <= j < i ==> s@[j] != c);
            assert(w == i) by {
                if w < i {
                    assert(s@[w] != c);
                } else if w > i {
                    assert(s@[i as int] != c);
                }
            }
            Some(i)
        },
        None => None,
    }
}

/// The characters before the first `c`.
pub fn chars_before_first(s: &Vec<char>, c: char) -> (r: Vec<char>)
    ensures
        r@ == before_first(s@, c),
{
    match first_position(s, c) {
        Some(i) => {
            let r = slice_chars(s, 0, i);
            assert(r@ =~= s@.take(i as int));
            r
        },
        None => slice_chars(s, 0, s.len()),
    }
}

/// The characters after the last `c`.
pub fn chars_after_last(s: &Vec<char>, c: char) -> (r: Vec<char>)
    ensures
        r@ == after_last(s@, c),
{
    let mut cur: Vec<char> = Vec::new();
    let mut i: usize = 0;
    while i < s.len()
        invariant
            i <= s.len(),
            cur@ == after_last(s@.take(i as int), c),
        decreases s.len() - i,
    {
        assert(s@.take(i + 1).drop_last() =~= s@.take(i as int));
        if s[i] == c {
            cur = Vec::new();
            assert(cur@ =~= after_last(s@.take(i + 1), c));
        } else {
            cur.push(s[i]);
        }
        i += 1;
    }
    assert(s@.take(s.len() as int) =~= s@);
    cur
}

} // verus!

verus! {

/// Whether `s` ends with `p`.
pub open spec fn ends_with(s: Seq<char>, p: Seq<char>) -> bool {
    p.len() <= s.len() && s.subrange(s.len() - p.len(), s.len() as int) == p
}

/// Whether a text ends with a suffix.
pub fn has_suffix(s: &str, p: &str) -> (r: bool)
    ensures
        r == ends_with(s@, p@),
{
    let sc = chars_of(s);
    let pc = chars_of(p);
    if pc.len() > sc.len() {
        return false;
    }
    let off = sc.len() - pc.len();
    let mut i: usize = 0;
    while i < pc.len()
        invariant
            sc@ == s@,
            pc@ == p@,
            off == sc.len() - pc.len(),
            i <= pc.len(),
            forall|j: int| 0 <= j < i ==> sc@[off + j] == pc@[j],
        decreases pc.len() - i,
    {
        if sc[off + i] != pc[i] {
            assert(s@.subrange(off as int, s@.len() as int)[i as int] != p@[i as int]);
            return false;
        }
        i += 1;
    }
    assert(s@.subrange(off as int, s@.len() as int) =~= p@);
    true
}

} // verus!
