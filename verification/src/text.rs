//! Splitting and decimal reading of text, stated over `Seq<char>`.

use vstd::prelude::*;
use vstd::std_specs::iter::IteratorSpec;

verus! {

/// The pieces of `s` between occurrences of `sep`: one more piece than there
/// are separators, so the empty text has the single empty piece.
pub open spec fn split(s: Seq<char>, sep: char) -> Seq<Seq<char>>
    decreases s.len(),
{
    if s.len() == 0 {
        seq![Seq::<char>::empty()]
    } else {
        let before = split(s.drop_last(), sep);
        if s.last() == sep {
            before.push(Seq::<char>::empty())
        } else {
            before.drop_last().push(before.last().push(s.last()))
        }
    }
}

/// The views of a sequence of string slices.
pub open spec fn views(parts: Seq<&str>) -> Seq<Seq<char>> {
    Seq::new(parts.len(), |i: int| parts[i]@)
}

/// A line without the carriage return that may end it.
pub open spec fn strip_cr(s: Seq<char>) -> Seq<char> {
    if s.len() > 0 && s.last() == '\r' {
        s.drop_last()
    } else {
        s
    }
}

/// The lines of `s`: the pieces between line feeds, each piece that a line
/// feed ended losing one trailing carriage return, and no line for the empty
/// text that follows the last line feed.
pub open spec fn lines(s: Seq<char>) -> Seq<Seq<char>> {
    let pieces = split(s, '\n');
    let ended = pieces.drop_last().map_values(|p: Seq<char>| strip_cr(p));
    if pieces.last().len() == 0 {
        ended
    } else {
        ended.push(pieces.last())
    }
}

pub proof fn lemma_split_nonempty(s: Seq<char>, sep: char)
    ensures
        split(s, sep).len() >= 1,
    decreases s.len(),
{
    if s.len() > 0 {
        lemma_split_nonempty(s.drop_last(), sep);
    }
}

/// The characters of `s`, in order.
pub fn chars_of(s: &str) -> (v: Vec<char>)
    ensures
        v@ == s@,
{
    broadcast use vstd::string::group_string_axioms;

    let mut it = s.chars();
    let mut v: Vec<char> = Vec::new();
    assert(v@ + it.remaining() =~= s@);
    loop
        invariant
            v@ + it.remaining() == s@,
            it.decrease() is Some,
        ensures
            v@ == s@,
        decreases it.decrease()->0,
    {
        let ghost before = it.remaining();
        match it.next() {
            Some(c) => {
                v.push(c);
                assert(v@ + it.remaining() =~= s@);
            },
            None => {
                assert(v@ + before =~= v@);
                break ;
            },
        }
    }
    v
}

/// Whether two string slices hold the same text.
pub fn same_text(a: &str, b: &str) -> (r: bool)
    ensures
        r == (a@ == b@),
{
    let x = chars_of(a);
    let y = chars_of(b);
    if x.len() != y.len() {
        return false;
    }
    let mut i: usize = 0;
    while i < x.len()
        invariant
            x@ == a@,
            y@ == b@,
            x.len() == y.len(),
            i <= x.len(),
            a@.subrange(0, i as int) == b@.subrange(0, i as int),
        decreases x.len() - i,
    {
        if x[i] != y[i] {
            return false;
        }
        assert(a@.subrange(0, i + 1) == a@.subrange(0, i as int).push(a@[i as int]));
        assert(b@.subrange(0, i + 1) == b@.subrange(0, i as int).push(b@[i as int]));
        i += 1;
    }
    assert(a@ == a@.subrange(0, a@.len() as int));
    assert(b@ == b@.subrange(0, b@.len() as int));
    true
}

/// Cuts `s` at every `sep`.
pub fn split_text<'a>(s: &'a str, sep: char) -> (parts: Vec<&'a str>)
    ensures
        views(parts@) == split(s@, sep),
{
    let chars = chars_of(s);
    let n: usize = chars.len();
    let mut parts: Vec<&'a str> = Vec::new();
    let mut start: usize = 0;
    let mut i: usize = 0;
    assert(s@.subrange(0, 0) =~= Seq::<char>::empty());
    assert(views(parts@).push(s@.subrange(0, 0)) =~= seq![Seq::<char>::empty()]);
    while i < n
        invariant
            chars@ == s@,
            n == s@.len(),
            start <= i <= n,
            views(parts@).push(s@.subrange(start as int, i as int)) == split(
                s@.subrange(0, i as int),
                sep,
            ),
        decreases n - i,
    {
        let ghost before = s@.subrange(0, i as int);
        let ghost now = s@.subrange(0, i + 1);
        assert(now.drop_last() == before);
        assert(now.last() == s@[i as int]);
        if chars[i] == sep {
            let piece = s.substring_char(start, i);
            let ghost old_parts = parts@;
            parts.push(piece);
            assert(views(parts@) == views(old_parts).push(piece@));
            start = i + 1;
            assert(s@.subrange(start as int, i + 1) == Seq::<char>::empty());
        } else {
            assert(s@.subrange(start as int, i + 1) == s@.subrange(start as int, i as int).push(
                s@[i as int],
            ));
            let ghost acc = views(parts@).push(s@.subrange(start as int, i as int));
            assert(acc.drop_last() == views(parts@));
        }
        i += 1;
    }
    let piece = s.substring_char(start, n);
    let ghost old_parts = parts@;
    parts.push(piece);
    assert(views(parts@) == views(old_parts).push(piece@));
    assert(s@.subrange(0, n as int) == s@);
    parts
}

/// Cuts `s` into its lines.
pub fn split_lines<'a>(s: &'a str) -> (rows: Vec<&'a str>)
    ensures
        views(rows@) == lines(s@),
{
    let pieces = split_text(s, '\n');
    proof {
        lemma_split_nonempty(s@, '\n');
        assert(views(pieces@).len() == pieces@.len());
    }
    let n: usize = pieces.len();
    let mut rows: Vec<&'a str> = Vec::new();
    let mut i: usize = 0;
    let ghost ended = split(s@, '\n').drop_last().map_values(|p: Seq<char>| strip_cr(p));
    while i < n - 1
        invariant
            n == pieces@.len(),
            n >= 1,
            i <= n - 1,
            views(pieces@) == split(s@, '\n'),
            ended == split(s@, '\n').drop_last().map_values(|p: Seq<char>| strip_cr(p)),
            views(rows@) == ended.subrange(0, i as int),
        decreases n - i,
    {
        let piece: &'a str = pieces[i];
        assert(piece@ == views(pieces@)[i as int]);
        let m: usize = piece.unicode_len();
        let row: &'a str = if m > 0 && piece.get_char(m - 1) == '\r' {
            piece.substring_char(0, m - 1)
        } else {
            piece
        };
        assert(row@ == strip_cr(piece@));
        let ghost old_rows = rows@;
        rows.push(row);
        assert(views(rows@) == views(old_rows).push(row@));
        assert(ended.subrange(0, i + 1) == ended.subrange(0, i as int).push(ended[i as int]));
        i += 1;
    }
    assert(ended.subrange(0, i as int) == ended);
    let tail: &'a str = pieces[n - 1];
    assert(tail@ == views(pieces@)[n - 1]);
    if tail.unicode_len() > 0 {
        let ghost old_rows = rows@;
        rows.push(tail);
        assert(views(rows@) == views(old_rows).push(tail@));
    }
    rows
}

/// Finds the first `c` in `s`.
pub fn find_first(s: &str, c: char) -> (r: Option<usize>)
    ensures
        match r {
            Some(i) => s@.index_of_first(c) == Some(i as int) && i < s@.len(),
            None => s@.index_of_first(c) is None,
        },
{
    let chars = chars_of(s);
    let mut i: usize = 0;
    while i < chars.len()
        invariant
            chars@ == s@,
            i <= chars.len(),
            forall|j: int| 0 <= j < i ==> s@[j] != c,
        decreases chars.len() - i,
    {
        if chars[i] == c {
            assert(s@[i as int] == c);
            assert(s@.contains(c));
            proof {
                s@.index_of_first_ensures(c);
            }
            let ghost k = s@.index_of_first(c)->Some_0;
            assert(s@[k] == c);
            assert(k == i) by {
                if k < i {
                    assert(s@[k] != c);
                }
                if i < k {
                    assert(s@[i as int] != c);
                }
            }
            return Some(i);
        }
        i += 1;
    }
    proof {
        s@.index_of_first_ensures(c);
    }
    None
}

/// Whether `c` is one of the ten ASCII digits.
pub open spec fn is_digit(c: char) -> bool {
    '0' as u32 <= c as u32 <= '9' as u32
}

/// The number that the digit `c` stands for.
pub open spec fn digit_of(c: char) -> nat {
    (c as u32 - '0' as u32) as nat
}

pub open spec fn all_digits(s: Seq<char>) -> bool {
    forall|i: int| 0 <= i < s.len() ==> is_digit(#[trigger] s[i])
}

/// The number that a run of digits spells in base ten.
pub open spec fn digits_value(s: Seq<char>) -> nat
    decreases s.len(),
{
    if s.len() == 0 {
        0
    } else {
        digits_value(s.drop_last()) * 10 + digit_of(s.last())
    }
}

/// What an unsigned decimal spells: an optional `+`, then at least one digit.
pub open spec fn unsigned_text(s: Seq<char>) -> Option<nat> {
    let body = if s.len() > 0 && s[0] == '+' {
        s.subrange(1, s.len() as int)
    } else {
        s
    };
    if body.len() > 0 && all_digits(body) {
        Some(digits_value(body))
    } else {
        None
    }
}

/// What a signed decimal spells: an optional `+` or `-`, then at least one digit.
pub open spec fn signed_text(s: Seq<char>) -> Option<int> {
    if s.len() > 0 && s[0] == '-' {
        let body = s.subrange(1, s.len() as int);
        if body.len() > 0 && all_digits(body) {
            Some(-(digits_value(body) as int))
        } else {
            None
        }
    } else {
        match unsigned_text(s) {
            Some(v) => Some(v as int),
            None => None,
        }
    }
}

/// The `i32` that `s` spells, if it spells one that fits.
pub open spec fn i32_text(s: Seq<char>) -> Option<i32> {
    match signed_text(s) {
        Some(v) => if i32::MIN <= v <= i32::MAX {
            Some(v as i32)
        } else {
            None
        },
        None => None,
    }
}

/// The `usize` that `s` spells, if it spells one that fits.
pub open spec fn usize_text(s: Seq<char>) -> Option<usize> {
    match unsigned_text(s) {
        Some(v) => if v <= usize::MAX {
            Some(v as usize)
        } else {
            None
        },
        None => None,
    }
}

/// Reads the digits from `from` to the end, up to the value `cap`.
fn read_digits(chars: &Vec<char>, from: usize, cap: u128) -> (r: Option<u128>)
    requires
        from <= chars@.len(),
        cap <= u64::MAX,
    ensures
        ({
            let body = chars@.subrange(from as int, chars@.len() as int);
            r == if body.len() > 0 && all_digits(body) && digits_value(body) <= cap {
                Some(digits_value(body) as u128)
            } else {
                None
            }
        }),
{
    let n: usize = chars.len();
    let ghost body = chars@.subrange(from as int, n as int);
    if from == n {
        return None;
    }
    let mut acc: u128 = 0;
    let mut over: bool = false;
    let mut i: usize = from;
    assert(chars@.subrange(from as int, from as int) =~= Seq::<char>::empty());
    while i < n
        invariant
            n == chars@.len(),
            from <= i <= n,
            cap <= u64::MAX,
            body == chars@.subrange(from as int, n as int),
            all_digits(chars@.subrange(from as int, i as int)),
            over ==> digits_value(chars@.subrange(from as int, i as int)) > cap,
            !over ==> acc == digits_value(chars@.subrange(from as int, i as int)) && acc <= cap,
        decreases n - i,
    {
        let c: char = chars[i];
        if !('0' as u32 <= c as u32 && c as u32 <= '9' as u32) {
            assert(body[i - from] == c);
            assert(!is_digit(body[i - from]));
            return None;
        }
        let d: u128 = (c as u32 - '0' as u32) as u128;
        let ghost before = chars@.subrange(from as int, i as int);
        let ghost now = chars@.subrange(from as int, i + 1);
        assert(now.drop_last() == before);
        assert(now.last() == c);
        assert(digits_value(now) == digits_value(before) * 10 + d);
        assert forall|k: int| 0 <= k < now.len() implies is_digit(#[trigger] now[k]) by {
            if k < before.len() {
                assert(now[k] == before[k]);
            }
        }
        if !over {
            let next: u128 = acc * 10 + d;
            if next > cap {
                over = true;
            } else {
                acc = next;
            }
        }
        i += 1;
    }
    assert(chars@.subrange(from as int, n as int) == body);
    if over {
        None
    } else {
        Some(acc)
    }
}

/// Reads `s` as a signed decimal that fits an `i32`.
pub fn read_i32(s: &str) -> (r: Option<i32>)
    ensures
        r == i32_text(s@),
{
    let chars = chars_of(s);
    if chars.len() > 0 && chars[0] == '-' {
        match read_digits(&chars, 1, 2147483648u128) {
            Some(m) => {
                let v: i64 = -(m as i64);
                Some(v as i32)
            },
            None => None,
        }
    } else {
        let from: usize = if chars.len() > 0 && chars[0] == '+' {
            1
        } else {
            0
        };
        assert(chars@.subrange(0, chars@.len() as int) == chars@);
        match read_digits(&chars, from, 2147483647u128) {
            Some(m) => Some(m as i32),
            None => None,
        }
    }
}

/// Reads `s` as an unsigned decimal that fits a `usize`.
pub fn read_usize(s: &str) -> (r: Option<usize>)
    ensures
        r == usize_text(s@),
{
    let chars = chars_of(s);
    let from: usize = if chars.len() > 0 && chars[0] == '+' {
        1
    } else {
        0
    };
    assert(chars@.subrange(0, chars@.len() as int) == chars@);
    match read_digits(&chars, from, usize::MAX as u128) {
        Some(m) => Some(m as usize),
        None => None,
    }
}

/// Where the run of digits that starts at `from` ends.
pub open spec fn digits_end(s: Seq<char>, from: int) -> int
    decreases s.len() - from,
{
    if 0 <= from < s.len() && is_digit(s[from]) {
        digits_end(s, from + 1)
    } else {
        from
    }
}

/// Finds the end of the run of digits that starts at `from`.
pub fn scan_digits(chars: &Vec<char>, from: usize) -> (r: usize)
    requires
        from <= chars@.len(),
    ensures
        r == digits_end(chars@, from as int),
        from <= r <= chars@.len(),
{
    let mut i: usize = from;
    while i < chars.len() && '0' as u32 <= chars[i] as u32 && chars[i] as u32 <= '9' as u32
        invariant
            from <= i <= chars@.len(),
            digits_end(chars@, from as int) == digits_end(chars@, i as int),
        decreases chars@.len() - i,
    {
        i += 1;
    }
    i
}

/// Whether `s` is `word` written in any mix of the two cases given.
pub open spec fn spells(s: Seq<char>, lower: Seq<char>, upper: Seq<char>) -> bool {
    &&& s.len() == lower.len()
    &&& s.len() == upper.len()
    &&& forall|i: int| 0 <= i < s.len() ==> s[i] == lower[i] || s[i] == upper[i]
}

fn spells_word(chars: &Vec<char>, from: usize, lower: &str, upper: &str) -> (r: bool)
    requires
        from <= chars@.len(),
    ensures
        r == spells(chars@.subrange(from as int, chars@.len() as int), lower@, upper@),
{
    let lo = chars_of(lower);
    let up = chars_of(upper);
    let n: usize = chars.len() - from;
    let ghost rest = chars@.subrange(from as int, chars@.len() as int);
    if lo.len() != n || up.len() != n {
        return false;
    }
    let mut i: usize = 0;
    while i < n
        invariant
            from + n == chars@.len(),
            chars@.len() <= usize::MAX,
            lo@ == lower@,
            up@ == upper@,
            lo@.len() == n,
            up@.len() == n,
            i <= n,
            rest == chars@.subrange(from as int, chars@.len() as int),
            forall|j: int| 0 <= j < i ==> rest[j] == lo@[j] || rest[j] == up@[j],
        decreases n - i,
    {
        let c: char = chars[from + i];
        assert(rest[i as int] == c);
        if c != lo[i] && c != up[i] {
            return false;
        }
        i += 1;
    }
    true
}

/// Whether the text from `from` on is digits with at most one point among
/// them, at least one digit in all, and an exponent or nothing after them.
pub open spec fn is_number_from(s: Seq<char>, from: int) -> bool {
    let a = digits_end(s, from);
    let b = if a < s.len() && s[a] == '.' {
        digits_end(s, a + 1)
    } else {
        a
    };
    let digits = (a - from) + (if b > a {
        b - a - 1
    } else {
        0
    });
    digits > 0 && if b < s.len() && (s[b] == 'e' || s[b] == 'E') {
        let c = if b + 1 < s.len() && (s[b + 1] == '+' || s[b + 1] == '-') {
            b + 2
        } else {
            b + 1
        };
        let d = digits_end(s, c);
        d > c && d == s.len()
    } else {
        b == s.len()
    }
}

/// Whether `s` is a decimal literal of a floating-point number: an optional
/// sign, then `inf`, `infinity` or `nan` in any case, or digits with an
/// optional point and an optional exponent.
pub open spec fn is_float_text(s: Seq<char>) -> bool {
    let from: int = if s.len() > 0 && (s[0] == '+' || s[0] == '-') {
        1
    } else {
        0
    };
    let rest = s.subrange(from, s.len() as int);
    ||| spells(rest, "inf"@, "INF"@)
    ||| spells(rest, "infinity"@, "INFINITY"@)
    ||| spells(rest, "nan"@, "NAN"@)
    ||| is_number_from(s, from)
}

/// Decides whether `s` is a decimal literal of a floating-point number.
pub fn is_float(s: &str) -> (r: bool)
    ensures
        r == is_float_text(s@),
{
    let chars = chars_of(s);
    let n: usize = chars.len();
    let from: usize = if n > 0 && (chars[0] == '+' || chars[0] == '-') {
        1
    } else {
        0
    };
    if spells_word(&chars, from, "inf", "INF") || spells_word(&chars, from, "infinity", "INFINITY")
        || spells_word(&chars, from, "nan", "NAN") {
        return true;
    }
    let a: usize = scan_digits(&chars, from);
    let b: usize = if a < n && chars[a] == '.' {
        scan_digits(&chars, a + 1)
    } else {
        a
    };
    let digits: usize = (a - from) + (if b > a {
        b - a - 1
    } else {
        0
    });
    if digits == 0 {
        return false;
    }
    if b < n && (chars[b] == 'e' || chars[b] == 'E') {
        let c: usize = if b + 1 < n && (chars[b + 1] == '+' || chars[b + 1] == '-') {
            b + 2
        } else {
            b + 1
        };
        let d: usize = scan_digits(&chars, c);
        d > c && d == n
    } else {
        b == n
    }
}

} // verus!
