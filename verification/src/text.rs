//! Character-level text utilities.
//!
//! The document logic works on `Vec<char>` so that every position is an
//! exact character index; these helpers convert between `str`/`String`
//! and character vectors and provide the few primitive operations the
//! rest of the crate builds on.

use vstd::prelude::*;
use vstd::std_specs::iter::IteratorSpec;

verus! {

broadcast use vstd::string::axiom_spec_iter;

/// Collect the characters of a string slice into a vector.
pub fn str_chars(s: &str) -> (v: Vec<char>)
    ensures
        v@ == s@,
{
    let mut it = s.chars();
    let mut v: Vec<char> = Vec::new();
    loop
        invariant
            it.obeys_prophetic_iter_laws(),
            it.decrease() is Some,
            v@ + it.remaining() == s@,
        decreases it.decrease()->0,
    {
        let c_opt = it.next();
        match c_opt {
            Some(c) => {
                v.push(c);
            },
            None => {
                proof {
                    assert(it.remaining().len() == 0);
                    assert(v@ + it.remaining() =~= v@);
                }
                return v;
            },
        }
    }
}

/// Relies on `String::push`: appends exactly the given character.
#[verifier::external_body]
fn push_char(s: &mut String, c: char)
    ensures
        final(s)@ == old(s)@.push(c),
{
    s.push(c)
}

/// Build a `String` out of a character slice.
pub fn string_from_chars(v: &[char]) -> (s: String)
    ensures
        s@ == v@,
{
    let mut s = String::new();
    let mut i: usize = 0;
    while i < v.len()
        invariant
            i <= v.len(),
            s@ == v@.take(i as int),
        decreases v.len() - i,
    {
        push_char(&mut s, v[i]);
        proof {
            assert(v@.take(i as int).push(v@[i as int]) =~= v@.take(i + 1));
        }
        i = i + 1;
    }
    proof {
        assert(v@.take(v@.len() as int) =~= v@);
    }
    s
}

/// Append every character of `tail` to `out`.
pub fn extend_chars(out: &mut Vec<char>, tail: &[char])
    ensures
        final(out)@ == old(out)@ + tail@,
{
    let mut i: usize = 0;
    while i < tail.len()
        invariant
            i <= tail.len(),
            out@ == old(out)@ + tail@.take(i as int),
        decreases tail.len() - i,
    {
        out.push(tail[i]);
        proof {
            assert(old(out)@ + tail@.take(i as int).push(tail@[i as int]) =~= old(out)@
                + tail@.take(i + 1));
        }
        i = i + 1;
    }
    proof {
        assert(old(out)@ + tail@.take(tail@.len() as int) =~= old(out)@ + tail@);
    }
}

/// Two character slices hold the same characters.
pub fn chars_eq(a: &[char], b: &[char]) -> (r: bool)
    ensures
        r == (a@ == b@),
{
    if a.len() != b.len() {
        proof {
            assert(a@ != b@);
        }
        return false;
    }
    let mut i: usize = 0;
    while i < a.len()
        invariant
            i <= a.len(),
            a.len() == b.len(),
            forall|j: int| 0 <= j < i ==> a@[j] == b@[j],
        decreases a.len() - i,
    {
        if a[i] != b[i] {
            return false;
        }
        i = i + 1;
    }
    proof {
        assert(a@ =~= b@);
    }
    true
}

/// The sequence `pat` occurs in `hay` starting at `at`.
pub open spec fn occurs_at(hay: Seq<char>, pat: Seq<char>, at: int) -> bool {
    &&& 0 <= at
    &&& at + pat.len() <= hay.len()
    &&& hay.subrange(at, at + pat.len()) == pat
}

/// `prefix` starts the sequence `s`.
pub open spec fn is_prefix_of(prefix: Seq<char>, s: Seq<char>) -> bool {
    prefix.len() <= s.len() && s.subrange(0, prefix.len() as int) == prefix
}

/// The slice `s` starts with `prefix`.
pub fn starts_with(s: &[char], prefix: &[char]) -> (r: bool)
    ensures
        r == is_prefix_of(prefix@, s@),
{
    if prefix.len() > s.len() {
        return false;
    }
    let mut i: usize = 0;
    while i < prefix.len()
        invariant
            i <= prefix.len(),
            prefix.len() <= s.len(),
            forall|j: int| 0 <= j < i ==> s@[j] == prefix@[j],
        decreases prefix.len() - i,
    {
        if s[i] != prefix[i] {
            proof {
                assert(s@.subrange(0, prefix@.len() as int)[i as int] != prefix@[i as int]);
            }
            return false;
        }
        i = i + 1;
    }
    proof {
        assert(s@.subrange(0, prefix@.len() as int) =~= prefix@);
    }
    true
}

/// The code point a character counts as in case-insensitive comparison:
/// upper-case ASCII letters fold onto their lower-case forms, everything
/// else stands for itself.
pub open spec fn fold_code(c: char) -> int {
    if 'A' <= c && c <= 'Z' {
        c as int + 32
    } else {
        c as int
    }
}

/// Fold one character for case-insensitive comparison.
pub fn fold_exec(c: char) -> (r: u32)
    ensures
        r == fold_code(c),
{
    let u: u32 = c as u32;
    if 65 <= u && u <= 90 {
        u + 32
    } else {
        u
    }
}

/// Two character slices agree character for character after ASCII case
/// folding.
pub open spec fn fold_eq(a: Seq<char>, b: Seq<char>) -> bool {
    a.len() == b.len() && forall|j: int| 0 <= j < a.len() ==> fold_code(a[j]) == fold_code(b[j])
}

/// Case-insensitive comparison of two character slices.
pub fn chars_eq_ignore_case(a: &[char], b: &[char]) -> (r: bool)
    ensures
        r == fold_eq(a@, b@),
{
    if a.len() != b.len() {
        return false;
    }
    let mut i: usize = 0;
    while i < a.len()
        invariant
            i <= a.len(),
            a.len() == b.len(),
            forall|j: int| 0 <= j < i ==> fold_code(a@[j]) == fold_code(b@[j]),
        decreases a.len() - i,
    {
        if fold_exec(a[i]) != fold_exec(b[i]) {
            return false;
        }
        i = i + 1;
    }
    true
}

/// First occurrence of `c` in `s`, if any.
pub fn find_char(s: &[char], c: char) -> (r: Option<usize>)
    ensures
        match r {
            Some(i) => s@.index_of_first(c) == Some(i as int) && i < s@.len() && s@[i as int]
                == c && forall|j: int| 0 <= j < i ==> s@[j] != c,
            None => s@.index_of_first(c) is None && forall|j: int| 0 <= j < s@.len() ==> s@[j]
                != c,
        },
{
    proof {
        s@.index_of_first_ensures(c);
    }
    let mut i: usize = 0;
    while i < s.len()
        invariant
            i <= s.len(),
            forall|j: int| 0 <= j < i ==> s@[j] != c,
        decreases s.len() - i,
    {
        if s[i] == c {
            proof {
                s@.index_of_first_ensures(c);
                assert(s@.contains(c));
                let k = s@.index_of_first(c)->Some_0;
                assert(s@[k] == c);
                assert(!(k < i) && !(k > i));
            }
            return Some(i);
        }
        i = i + 1;
    }
    proof {
        s@.index_of_first_ensures(c);
        assert(forall|j: int| 0 <= j < s@.len() ==> s@[j] != c);
        assert(!s@.contains(c));
    }
    None
}

/// Last occurrence of `c` in `s`, if any.
pub fn rfind_char(s: &[char], c: char) -> (r: Option<usize>)
    ensures
        match r {
            Some(i) => s@.index_of_last(c) == Some(i as int) && i < s@.len() && s@[i as int]
                == c && forall|j: int| i < j < s@.len() ==> s@[j] != c,
            None => s@.index_of_last(c) is None && forall|j: int| 0 <= j < s@.len() ==> s@[j]
                != c,
        },
{
    let mut i: usize = s.len();
    while i > 0
        invariant
            i <= s.len(),
            forall|j: int| i <= j < s@.len() ==> s@[j] != c,
        decreases i,
    {
        i = i - 1;
        if s[i] == c {
            proof {
                s@.index_of_last_ensures(c);
                assert(s@.contains(c));
                let k = s@.index_of_last(c)->Some_0;
                assert(s@[k] == c);
                assert(!(k < i) && !(k > i));
            }
            return Some(i);
        }
    }
    proof {
        s@.index_of_last_ensures(c);
        assert(forall|j: int| 0 <= j < s@.len() ==> s@[j] != c);
        assert(!s@.contains(c));
    }
    None
}

/// Copy of the characters `from..to` of `s`.
pub fn subrange_chars(s: &[char], from: usize, to: usize) -> (v: Vec<char>)
    requires
        from <= to <= s@.len(),
    ensures
        v@ == s@.subrange(from as int, to as int),
{
    let mut v: Vec<char> = Vec::new();
    let mut i: usize = from;
    while i < to
        invariant
            from <= i <= to <= s@.len(),
            v@ == s@.subrange(from as int, i as int),
        decreases to - i,
    {
        v.push(s[i]);
        proof {
            assert(s@.subrange(from as int, i as int).push(s@[i as int]) =~= s@.subrange(
                from as int,
                i + 1,
            ));
        }
        i = i + 1;
    }
    v
}

/// Split a sequence at every occurrence of `c`.
pub open spec fn split_at(s: Seq<char>, c: char) -> Seq<Seq<char>>
    decreases s.len(),
{
    match s.index_of_first(c) {
        Some(i) => if 0 <= i < s.len() {
            seq![s.take(i)] + split_at(s.subrange(i + 1, s.len() as int), c)
        } else {
            seq![s]
        },
        None => seq![s],
    }
}

/// Split a character slice at every occurrence of `c`.
pub fn split_char(s: &[char], c: char) -> (parts: Vec<Vec<char>>)
    ensures
        parts@.map_values(|p: Vec<char>| p@) == split_at(s@, c),
{
    let mut parts: Vec<Vec<char>> = Vec::new();
    let mut rest: Vec<char> = subrange_chars(s, 0, s.len());
    proof {
        assert(rest@ =~= s@);
    }
    loop
        invariant
            parts@.map_values(|p: Vec<char>| p@) + split_at(rest@, c) =~= split_at(s@, c),
        decreases rest@.len(),
    {
        match find_char(rest.as_slice(), c) {
            Some(i) => {
                let n: usize = rest.len();
                assert(i < n);
                let head = subrange_chars(rest.as_slice(), 0, i);
                let tail = subrange_chars(rest.as_slice(), i + 1, n);
                let ghost parts0 = parts@.map_values(|p: Vec<char>| p@);
                let ghost rest0 = rest@;
                parts.push(head);
                rest = tail;
                proof {
                    assert(rest0.take(i as int) =~= head@);
                    assert(split_at(rest0, c) == seq![head@] + split_at(rest@, c));
                    assert(parts@.map_values(|p: Vec<char>| p@) =~= parts0.push(head@));
                    assert(parts0.push(head@) + split_at(rest@, c) =~= parts0 + (seq![head@]
                        + split_at(rest@, c)));
                }
            },
            None => {
                let ghost parts0 = parts@.map_values(|p: Vec<char>| p@);
                parts.push(rest);
                proof {
                    assert(parts@.map_values(|p: Vec<char>| p@) =~= parts0.push(
                        parts@[parts@.len() - 1]@,
                    ));
                    assert(parts0.push(parts@[parts@.len() - 1]@) + Seq::<Seq<char>>::empty()
                        =~= parts0 + seq![parts@[parts@.len() - 1]@]);
                    assert(parts@.map_values(|p: Vec<char>| p@) =~= split_at(s@, c));
                }
                return parts;
            },
        }
    }
}

/// A line with one trailing carriage return removed.
pub open spec fn strip_cr(l: Seq<char>) -> Seq<char> {
    if l.len() > 0 && l.last() == '\r' {
        l.drop_last()
    } else {
        l
    }
}

/// The lines of a text: pieces between newline characters, each with a
/// trailing carriage return stripped; a trailing newline does not open a
/// final empty line, and an empty text has no lines.
pub open spec fn lines_of(s: Seq<char>) -> Seq<Seq<char>> {
    if s.len() == 0 {
        Seq::empty()
    } else {
        let parts = split_at(s, '\n').map_values(|p: Seq<char>| strip_cr(p));
        if s.last() == '\n' {
            parts.drop_last()
        } else {
            parts
        }
    }
}

/// Split a text into its lines.
pub fn split_lines(text: &[char]) -> (lines: Vec<Vec<char>>)
    ensures
        lines@.map_values(|l: Vec<char>| l@) == lines_of(text@),
{
    if text.len() == 0 {
        let lines: Vec<Vec<char>> = Vec::new();
        proof {
            assert(lines@.map_values(|l: Vec<char>| l@) =~= lines_of(text@));
        }
        return lines;
    }
    let mut parts = split_char(text, '\n');
    if text[text.len() - 1] == '\n' {
        parts.pop();
        proof {
            assert(parts@.map_values(|p: Vec<char>| p@) =~= split_at(text@, '\n').drop_last());
        }
    }
    let ghost base = parts@.map_values(|p: Vec<char>| p@);
    let mut lines: Vec<Vec<char>> = Vec::new();
    let mut i: usize = 0;
    while i < parts.len()
        invariant
            i <= parts.len(),
            base == parts@.map_values(|p: Vec<char>| p@),
            lines@.map_values(|l: Vec<char>| l@) == base.take(i as int).map_values(
                |p: Seq<char>| strip_cr(p),
            ),
        decreases parts.len() - i,
    {
        let n = parts[i].len();
        let stripped: Vec<char> = if n > 0 && parts[i][n - 1] == '\r' {
            subrange_chars(parts[i].as_slice(), 0, n - 1)
        } else {
            subrange_chars(parts[i].as_slice(), 0, n)
        };
        proof {
            assert(stripped@ =~= strip_cr(base[i as int]));
        }
        lines.push(stripped);
        proof {
            assert(base.take(i + 1).drop_last() =~= base.take(i as int));
            assert(lines@.map_values(|l: Vec<char>| l@) =~= base.take(i as int).map_values(
                |p: Seq<char>| strip_cr(p),
            ).push(strip_cr(base[i as int])));
            assert(base.take(i + 1).map_values(|p: Seq<char>| strip_cr(p)) =~= base.take(
                i as int,
            ).map_values(|p: Seq<char>| strip_cr(p)).push(strip_cr(base[i as int])));
        }
        i = i + 1;
    }
    proof {
        assert(base.take(base.len() as int) =~= base);
        if text@.last() == '\n' {
            assert(base.map_values(|p: Seq<char>| strip_cr(p)) =~= lines_of(text@));
        } else {
            assert(base.map_values(|p: Seq<char>| strip_cr(p)) =~= lines_of(text@));
        }
    }
    lines
}

/// Blank characters for trimming purposes: spaces and tabs.
pub open spec fn is_space(c: char) -> bool {
    c == ' ' || c == '\t'
}

/// The sequence with its leading blanks removed.
pub open spec fn trim_start_spec(s: Seq<char>) -> Seq<char>
    decreases s.len(),
{
    if s.len() > 0 && is_space(s[0]) {
        trim_start_spec(s.drop_first())
    } else {
        s
    }
}

/// The sequence with its trailing blanks removed.
pub open spec fn trim_end_spec(s: Seq<char>) -> Seq<char>
    decreases s.len(),
{
    if s.len() > 0 && is_space(s.last()) {
        trim_end_spec(s.drop_last())
    } else {
        s
    }
}

/// The sequence with blanks removed from both ends.
pub open spec fn trim_spec(s: Seq<char>) -> Seq<char> {
    trim_end_spec(trim_start_spec(s))
}

/// A blank character, executably.
pub fn is_space_exec(c: char) -> (r: bool)
    ensures
        r == is_space(c),
{
    c == ' ' || c == '\t'
}

/// Remove the leading blanks of a character slice.
pub fn trim_start_chars(s: &[char]) -> (v: Vec<char>)
    ensures
        v@ == trim_start_spec(s@),
{
    let mut i: usize = 0;
    proof {
        assert(s@.skip(0) =~= s@);
    }
    while i < s.len() && is_space_exec(s[i])
        invariant
            i <= s.len(),
            trim_start_spec(s@) == trim_start_spec(s@.skip(i as int)),
        decreases s.len() - i,
    {
        proof {
            assert(s@.skip(i as int).drop_first() =~= s@.skip(i + 1));
        }
        i = i + 1;
    }
    let v = subrange_chars(s, i, s.len());
    proof {
        assert(v@ =~= s@.skip(i as int));
        assert(trim_start_spec(s@.skip(i as int)) == s@.skip(i as int));
    }
    v
}

/// Remove the trailing blanks of a character slice.
pub fn trim_end_chars(s: &[char]) -> (v: Vec<char>)
    ensures
        v@ == trim_end_spec(s@),
{
    let mut i: usize = s.len();
    proof {
        assert(s@.take(s@.len() as int) =~= s@);
    }
    while i > 0 && is_space_exec(s[i - 1])
        invariant
            i <= s.len(),
            trim_end_spec(s@) == trim_end_spec(s@.take(i as int)),
        decreases i,
    {
        proof {
            assert(s@.take(i as int).drop_last() =~= s@.take(i - 1));
            assert(s@.take(i as int).last() == s@[i - 1]);
        }
        i = i - 1;
    }
    let v = subrange_chars(s, 0, i);
    proof {
        assert(v@ =~= s@.take(i as int));
        if i > 0 {
            assert(s@.take(i as int).last() == s@[i - 1]);
        }
        assert(trim_end_spec(s@.take(i as int)) == s@.take(i as int));
    }
    v
}

/// Remove the blanks at both ends of a character slice.
pub fn trim_chars(s: &[char]) -> (v: Vec<char>)
    ensures
        v@ == trim_spec(s@),
{
    let lead = trim_start_chars(s);
    trim_end_chars(lead.as_slice())
}

/// How many times `c` occurs in `s`.
pub open spec fn count_char(s: Seq<char>, c: char) -> int
    decreases s.len(),
{
    if s.len() == 0 {
        0
    } else {
        count_char(s.drop_last(), c) + if s.last() == c {
            1int
        } else {
            0int
        }
    }
}

/// Count the occurrences of `c` in `s`.
pub fn count_char_exec(s: &[char], c: char) -> (n: usize)
    ensures
        n == count_char(s@, c),
{
    let mut n: usize = 0;
    let mut i: usize = 0;
    while i < s.len()
        invariant
            i <= s.len(),
            n == count_char(s@.take(i as int), c),
            n <= i,
        decreases s.len() - i,
    {
        if s[i] == c {
            n = n + 1;
        }
        proof {
            assert(s@.take(i + 1).drop_last() =~= s@.take(i as int));
            assert(s@.take(i + 1).last() == s@[i as int]);
        }
        i = i + 1;
    }
    proof {
        assert(s@.take(s@.len() as int) =~= s@);
    }
    n
}

/// The character for one decimal digit.
pub open spec fn digit_char(d: int) -> char {
    if d == 0 {
        '0'
    } else if d == 1 {
        '1'
    } else if d == 2 {
        '2'
    } else if d == 3 {
        '3'
    } else if d == 4 {
        '4'
    } else if d == 5 {
        '5'
    } else if d == 6 {
        '6'
    } else if d == 7 {
        '7'
    } else if d == 8 {
        '8'
    } else {
        '9'
    }
}

/// Decimal digits of `n`, most significant first.
pub closed spec fn dec_digits(n: nat) -> Seq<char>
    decreases n,
{
    let digit = digit_char(n as int % 10);
    if n < 10 {
        seq![digit]
    } else {
        dec_digits(n / 10).push(digit)
    }
}

/// Render `n` in decimal notation.
pub fn u64_to_chars(n: u64) -> (v: Vec<char>)
    ensures
        v@ == dec_digits(n as nat),
    decreases n,
{
    let d: u64 = n % 10;
    let digit: char = if d == 0 {
        '0'
    } else if d == 1 {
        '1'
    } else if d == 2 {
        '2'
    } else if d == 3 {
        '3'
    } else if d == 4 {
        '4'
    } else if d == 5 {
        '5'
    } else if d == 6 {
        '6'
    } else if d == 7 {
        '7'
    } else if d == 8 {
        '8'
    } else {
        '9'
    };
    if n < 10 {
        let mut v: Vec<char> = Vec::new();
        v.push(digit);
        proof {
            assert(v@ =~= dec_digits(n as nat));
        }
        v
    } else {
        let mut v = u64_to_chars(n / 10);
        v.push(digit);
        proof {
            assert(v@ =~= dec_digits(n as nat));
        }
        v
    }
}

} // verus!
