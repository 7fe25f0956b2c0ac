//! Small string utilities: character-level equality, searching, joining,
//! trimming and decimal rendering, each with an exact specification.

use vstd::prelude::*;

verus! {

/// Compares two string slices character by character.
pub fn str_eq(a: &str, b: &str) -> (r: bool)
    ensures
        r == (a@ == b@),
{
    let na = a.unicode_len();
    let nb = b.unicode_len();
    if na != nb {
        assert(a@ != b@);
        return false;
    }
    let mut i: usize = 0;
    while i < na
        invariant
            na == a@.len(),
            na == b@.len(),
            i <= na,
            forall|j: int| 0 <= j < i ==> a@[j] == b@[j],
        decreases na - i,
    {
        if a.get_char(i) != b.get_char(i) {
            return false;
        }
        i += 1;
    }
    proof {
        assert(a@ =~= b@);
    }
    true
}

/// Index of the first occurrence of `c` in `s` at or after position `j`,
/// or `s.len()` when there is none.
pub open spec fn find_from(s: Seq<char>, c: char, j: int) -> int
    decreases s.len() - j when 0 <= j <= s.len()
{
    if j >= s.len() {
        s.len() as int
    } else if s[j] == c {
        j
    } else {
        find_from(s, c, j + 1)
    }
}

pub proof fn lemma_find_from_bounds(s: Seq<char>, c: char, j: int)
    requires
        0 <= j <= s.len(),
    ensures
        j <= find_from(s, c, j) <= s.len(),
        find_from(s, c, j) < s.len() ==> s[find_from(s, c, j)] == c,
        forall|k: int| j <= k < find_from(s, c, j) ==> s[k] != c,
    decreases s.len() - j,
{
    if j < s.len() && s[j] != c {
        lemma_find_from_bounds(s, c, j + 1);
    }
}

/// Finds the first occurrence of `c` in `s`, or returns `s`'s length.
pub fn find_char(s: &str, c: char) -> (r: usize)
    ensures
        r == find_from(s@, c, 0),
{
    let n = s.unicode_len();
    let mut i: usize = 0;
    while i < n
        invariant
            n == s@.len(),
            0 <= i <= n,
            find_from(s@, c, 0) == find_from(s@, c, i as int),
        decreases n - i,
    {
        if s.get_char(i) == c {
            return i;
        }
        i += 1;
    }
    i
}

/// The strings of `ss` joined with `sep` between the first `j` of them.
pub open spec fn join_upto(ss: Seq<Seq<char>>, sep: Seq<char>, j: int) -> Seq<char>
    decreases j when j <= ss.len()
{
    if j <= 0 {
        Seq::empty()
    } else if j == 1 {
        ss[0]
    } else {
        join_upto(ss, sep, j - 1) + sep + ss[j - 1]
    }
}

/// The strings of `ss` joined with `sep` between each pair.
pub open spec fn join_with(ss: Seq<Seq<char>>, sep: Seq<char>) -> Seq<char> {
    join_upto(ss, sep, ss.len() as int)
}

/// Joins the strings of `v`, separated by `sep`.
pub fn join_strings(v: &Vec<String>, sep: &str) -> (r: String)
    ensures
        r@ == join_with(v.deep_view(), sep@),
{
    let mut out = String::new();
    let mut i: usize = 0;
    while i < v.len()
        invariant
            0 <= i <= v.deep_view().len(),
            v.deep_view().len() == v@.len(),
            out@ == join_upto(v.deep_view(), sep@, i as int),
        decreases v@.len() - i,
    {
        if i > 0 {
            out.append(sep);
        }
        out.append(v[i].as_str());
        proof {
            assert(v.deep_view()[i as int] == v@[i as int]@);
        }
        i += 1;
    }
    out
}

/// Whether `c` has the Unicode white-space property, the set that
/// `str::trim` removes.
pub open spec fn is_blank(c: char) -> bool {
    ||| c == ' '
    ||| c == '\u{9}'
    ||| c == '\u{a}'
    ||| c == '\u{b}'
    ||| c == '\u{c}'
    ||| c == '\u{d}'
    ||| c == '\u{85}'
    ||| c == '\u{a0}'
    ||| c == '\u{1680}'
    ||| ('\u{2000}' <= c && c <= '\u{200a}')
    ||| c == '\u{2028}'
    ||| c == '\u{2029}'
    ||| c == '\u{202f}'
    ||| c == '\u{205f}'
    ||| c == '\u{3000}'
}

/// Decides [`is_blank`].
pub fn is_blank_char(c: char) -> (r: bool)
    ensures
        r == is_blank(c),
{
    c == ' ' || c == '\u{9}' || c == '\u{a}' || c == '\u{b}' || c == '\u{c}' || c == '\u{d}'
        || c == '\u{85}' || c == '\u{a0}' || c == '\u{1680}' || ('\u{2000}' <= c && c
        <= '\u{200a}') || c == '\u{2028}' || c == '\u{2029}' || c == '\u{202f}' || c == '\u{205f}'
        || c == '\u{3000}'
}

/// The first position in `s` at or after `j` holding a non-blank character,
/// or `s.len()`.
pub open spec fn skip_blank(s: Seq<char>, j: int) -> int
    decreases s.len() - j when 0 <= j <= s.len()
{
    if j >= s.len() {
        s.len() as int
    } else if is_blank(s[j]) {
        skip_blank(s, j + 1)
    } else {
        j
    }
}

/// The position after the last non-blank character of `s` before `j`,
/// or `0`.
pub open spec fn rskip_blank(s: Seq<char>, j: int) -> int
    decreases j when 0 <= j <= s.len()
{
    if j <= 0 {
        0
    } else if is_blank(s[j - 1]) {
        rskip_blank(s, j - 1)
    } else {
        j
    }
}

/// `s` without leading and trailing blanks.
pub open spec fn trimmed(s: Seq<char>) -> Seq<char> {
    let a = skip_blank(s, 0);
    let b = rskip_blank(s, s.len() as int);
    if a <= b {
        s.subrange(a, b)
    } else {
        Seq::empty()
    }
}

/// The pieces of `s` from position `start` on, split at commas, each piece
/// trimmed of surrounding blanks.
pub open spec fn split_trimmed_from(s: Seq<char>, start: int) -> Seq<Seq<char>>
    decreases s.len() - start when 0 <= start <= s.len() via split_trimmed_from_decreases
{
    let j = find_from(s, ',', start);
    if j >= s.len() {
        seq![trimmed(s.subrange(start, s.len() as int))]
    } else {
        seq![trimmed(s.subrange(start, j))] + split_trimmed_from(s, j + 1)
    }
}

#[via_fn]
proof fn split_trimmed_from_decreases(s: Seq<char>, start: int) {
    lemma_find_from_bounds(s, ',', start);
}

/// `s` split at commas, each piece trimmed of surrounding blanks.
pub open spec fn split_trimmed(s: Seq<char>) -> Seq<Seq<char>> {
    split_trimmed_from(s, 0)
}

pub proof fn lemma_skip_blank_bounds(s: Seq<char>, j: int)
    requires
        0 <= j <= s.len(),
    ensures
        j <= skip_blank(s, j) <= s.len(),
        skip_blank(s, j) < s.len() ==> !is_blank(s[skip_blank(s, j)]),
        forall|i: int| j <= i < skip_blank(s, j) ==> is_blank(s[i]),
    decreases s.len() - j,
{
    if j < s.len() && is_blank(s[j]) {
        lemma_skip_blank_bounds(s, j + 1);
    }
}

pub proof fn lemma_rskip_blank_bounds(s: Seq<char>, j: int)
    requires
        0 <= j <= s.len(),
    ensures
        0 <= rskip_blank(s, j) <= j,
        rskip_blank(s, j) > 0 ==> !is_blank(s[rskip_blank(s, j) - 1]),
        forall|i: int| rskip_blank(s, j) <= i < j ==> is_blank(s[i]),
    decreases j,
{
    if j > 0 && is_blank(s[j - 1]) {
        lemma_rskip_blank_bounds(s, j - 1);
    }
}

/// Copies the characters of `s` between `from` and `to`, trimmed of
/// surrounding blanks.
fn trim_piece(s: &str, from: usize, to: usize) -> (r: String)
    requires
        from <= to <= s@.len(),
        s@.len() <= usize::MAX,
    ensures
        r@ == trimmed(s@.subrange(from as int, to as int)),
{
    let ghost piece = s@.subrange(from as int, to as int);
    let mut a = from;
    while a < to && is_blank_char(s.get_char(a))
        invariant
            from <= a <= to <= s@.len(),
            piece == s@.subrange(from as int, to as int),
            skip_blank(piece, 0) == skip_blank(piece, a - from),
        decreases to - a,
    {
        proof {
            assert(piece[a - from] == s@[a as int]);
        }
        a += 1;
    }
    proof {
        if a < to {
            assert(piece[a - from] == s@[a as int]);
        }
        assert(a - from == skip_blank(piece, 0));
    }
    let mut b = to;
    while b > a && is_blank_char(s.get_char(b - 1))
        invariant
            from <= a <= b <= to <= s@.len(),
            piece == s@.subrange(from as int, to as int),
            a - from == skip_blank(piece, 0),
            rskip_blank(piece, to - from) == rskip_blank(piece, b - from),
        decreases b,
    {
        proof {
            assert(piece[b - 1 - from] == s@[b - 1]);
        }
        b -= 1;
    }
    let out = String::from_str(s.substring_char(a, b));
    proof {
        lemma_skip_blank_bounds(piece, 0);
        if b > a {
            assert(piece[b - 1 - from] == s@[b - 1]);
            assert(rskip_blank(piece, b - from) == b - from);
        } else {
            lemma_rskip_blank_bounds(piece, a - from);
        }
        assert(out@ =~= trimmed(piece));
    }
    out
}

/// Splits `names` at commas and trims each piece, as declared option names
/// are written `-o, --option`.
pub fn split_names(names: &str) -> (r: Vec<String>)
    ensures
        r.deep_view() == split_trimmed(names@),
{
    let n = names.unicode_len();
    let mut out: Vec<String> = Vec::new();
    let mut start: usize = 0;
    loop
        invariant
            0 <= start <= n,
            n == names@.len(),
            split_trimmed(names@) =~= out.deep_view() + split_trimmed_from(
                names@,
                start as int,
            ),
        decreases n - start,
    {
        // Find the next comma at or after `start`.
        let mut j = start;
        while j < n && names.get_char(j) != ','
            invariant
                start <= j <= n,
                n == names@.len(),
                find_from(names@, ',', start as int) == find_from(names@, ',', j as int),
            decreases n - j,
        {
            j += 1;
        }
        proof {
            assert(find_from(names@, ',', start as int) == j);
        }
        let piece = trim_piece(names, start, j);
        let ghost before = out.deep_view();
        out.push(piece);
        proof {
            assert(out.deep_view() =~= before.push(piece@));
            if j < n {
                assert(before.push(piece@) + split_trimmed_from(names@, j + 1) =~= before + (seq![
                    piece@,
                ] + split_trimmed_from(names@, j + 1)));
            } else {
                assert(before.push(piece@) =~= before + seq![piece@]);
                assert(split_trimmed_from(names@, start as int) =~= seq![piece@]);
            }
        }
        if j >= n {
            return out;
        }
        start = j + 1;
    }
}

/// The decimal digit character for `d`.
pub open spec fn digit_char(d: nat) -> char {
    if d == 0 {
        '0'
    } else if d == 1 {
        '1'
    } else if d == 2 {
        '2'
    } else if d == 3 {
        '3'
    } else if d == 4 {
        '4'
    } else if d == 5 {
        '5'
    } else if d == 6 {
        '6'
    } else if d == 7 {
        '7'
    } else if d == 8 {
        '8'
    } else {
        '9'
    }
}

/// The decimal rendering of `n`, most significant digit first.
pub open spec fn decimal(n: nat) -> Seq<char>
    decreases n
{
    if n < 10 {
        seq![digit_char(n)]
    } else {
        decimal(n / 10) + seq![digit_char(n % 10)]
    }
}

/// A one-character string slice holding the digit `d`.
fn digit_str(d: usize) -> (r: &'static str)
    requires
        d < 10,
    ensures
        r@ == seq![digit_char(d as nat)],
{
    proof {
        reveal_strlit("0");
        reveal_strlit("1");
        reveal_strlit("2");
        reveal_strlit("3");
        reveal_strlit("4");
        reveal_strlit("5");
        reveal_strlit("6");
        reveal_strlit("7");
        reveal_strlit("8");
        reveal_strlit("9");
    }
    let r = match d {
        0 => "0",
        1 => "1",
        2 => "2",
        3 => "3",
        4 => "4",
        5 => "5",
        6 => "6",
        7 => "7",
        8 => "8",
        _ => "9",
    };
    proof {
        assert(r@ =~= seq![digit_char(d as nat)]);
    }
    r
}

/// Renders `n` in decimal.
pub fn decimal_string(n: usize) -> (r: String)
    ensures
        r@ == decimal(n as nat),
    decreases n,
{
    if n < 10 {
        let mut out = String::new();
        out.append(digit_str(n));
        proof {
            assert(out@ =~= decimal(n as nat));
        }
        out
    } else {
        let mut out = decimal_string(n / 10);
        out.append(digit_str(n % 10));
        proof {
            assert(out@ =~= decimal(n as nat));
        }
        out
    }
}

} // verus!
