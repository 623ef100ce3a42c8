//! Character-level helpers on strings.
use vstd::prelude::*;
use vstd::std_specs::iter::IteratorSpec;

verus! {

/// The characters of `s`, in order.
pub fn chars_of(s: &str) -> (r: Vec<char>)
    ensures
        r@ == s@,
{
    broadcast use vstd::string::group_string_axioms;

    let mut out: Vec<char> = Vec::new();
    let mut it = s.chars();
    loop
        invariant
            out@ + it.remaining() == s@,
        decreases s@.len() - out@.len(),
    {
        match it.next() {
            Some(c) => {
                out.push(c);
                assert(out@ + it.remaining() =~= s@);
            },
            None => {
                assert(out@ =~= s@);
                return out;
            },
        }
    }
}

/// Whether two strings hold the same characters.
pub fn same_text(a: &str, b: &str) -> (r: bool)
    ensures
        r == (a@ == b@),
{
    broadcast use vstd::string::group_string_axioms;

    let mut ia = a.chars();
    let mut ib = b.chars();
    let ghost mut n: int = 0;
    loop
        invariant
            0 <= n <= a@.len(),
            n <= b@.len(),
            a@.subrange(0, n) == b@.subrange(0, n),
            ia.remaining() == a@.subrange(n, a@.len() as int),
            ib.remaining() == b@.subrange(n, b@.len() as int),
        decreases a@.len() - n,
    {
        let x = ia.next();
        let y = ib.next();
        match (x, y) {
            (Some(c), Some(d)) => {
                if c != d {
                    assert(a@[n] != b@[n]);
                    return false;
                }
                proof {
                    assert(a@.subrange(0, n + 1) =~= a@.subrange(0, n).push(a@[n]));
                    assert(b@.subrange(0, n + 1) =~= b@.subrange(0, n).push(b@[n]));
                    assert(ia.remaining() =~= a@.subrange(n + 1, a@.len() as int));
                    assert(ib.remaining() =~= b@.subrange(n + 1, b@.len() as int));
                    n = n + 1;
                }
            },
            (None, None) => {
                assert(a@ =~= a@.subrange(0, n));
                assert(b@ =~= b@.subrange(0, n));
                return true;
            },
            _ => {
                assert(a@.len() != b@.len());
                return false;
            },
        }
    }
}

/// What a list of strings holds, string by string.
pub open spec fn strs_view(strs: Seq<&str>) -> Seq<Seq<char>> {
    Seq::new(strs.len(), |i: int| strs[i]@)
}

/// What a list of owned strings holds, string by string.
pub open spec fn strings_view(strings: Seq<String>) -> Seq<Seq<char>> {
    Seq::new(strings.len(), |i: int| strings[i]@)
}

/// Whether `c` is white space, as Unicode lists it.
pub open spec fn is_space(c: char) -> bool {
    let u = c as u32;
    ||| 0x09 <= u <= 0x0d
    ||| u == 0x20
    ||| u == 0x85
    ||| u == 0xa0
    ||| u == 0x1680
    ||| 0x2000 <= u <= 0x200a
    ||| u == 0x2028
    ||| u == 0x2029
    ||| u == 0x202f
    ||| u == 0x205f
    ||| u == 0x3000
}

/// Tells whether `c` is white space.
pub fn space(c: char) -> (r: bool)
    ensures
        r == is_space(c),
{
    let u: u32 = c as u32;
    (0x09 <= u && u <= 0x0d) || u == 0x20 || u == 0x85 || u == 0xa0 || u == 0x1680 || (0x2000 <= u
        && u <= 0x200a) || u == 0x2028 || u == 0x2029 || u == 0x202f || u == 0x205f || u == 0x3000
}

/// Whether a line holds nothing but white space.
pub open spec fn is_blank(s: Seq<char>) -> bool {
    forall|i: int| 0 <= i < s.len() ==> is_space(#[trigger] s[i])
}

/// Tells whether `s` holds nothing but white space.
pub fn blank(s: &str) -> (r: bool)
    ensures
        r == is_blank(s@),
{
    let chars = chars_of(s);
    let mut i: usize = 0;
    while i < chars.len()
        invariant
            chars@ == s@,
            i <= chars.len(),
            forall|j: int| 0 <= j < i ==> is_space(#[trigger] s@[j]),
        decreases chars.len() - i,
    {
        if !space(chars[i]) {
            return false;
        }
        i += 1;
    }
    true
}

/// The pieces of `s` between the occurrences of `d`: one more piece than
/// there are occurrences, each possibly empty.
pub open spec fn split(s: Seq<char>, d: char) -> Seq<Seq<char>>
    decreases s.len(),
{
    if s.len() == 0 {
        seq![Seq::empty()]
    } else {
        let before = split(s.drop_last(), d);
        if s.last() == d {
            before.push(Seq::empty())
        } else {
            before.drop_last().push(before.last().push(s.last()))
        }
    }
}

/// A split has at least one piece.
pub proof fn split_is_not_empty(s: Seq<char>, d: char)
    ensures
        split(s, d).len() >= 1,
    decreases s.len(),
{
    if s.len() > 0 {
        split_is_not_empty(s.drop_last(), d);
    }
}

/// Splits `s` at every `d`.
pub fn split_on<'a>(s: &'a str, d: char) -> (r: Vec<&'a str>)
    ensures
        strs_view(r@) == split(s@, d),
        r.len() >= 1,
{
    let chars = chars_of(s);
    let mut out: Vec<&'a str> = Vec::new();
    let mut start: usize = 0;
    let mut i: usize = 0;
    proof {
        assert(s@.subrange(0, 0) =~= Seq::<char>::empty());
        assert(split(s@.subrange(0, 0), d) =~= strs_view(out@).push(s@.subrange(0, 0)));
    }
    while i < chars.len()
        invariant
            chars@ == s@,
            start <= i <= chars.len(),
            split(s@.subrange(0, i as int), d) == strs_view(out@).push(
                s@.subrange(start as int, i as int),
            ),
        decreases chars.len() - i,
    {
        let ghost before = strs_view(out@);
        let ghost upto = s@.subrange(0, i + 1);
        proof {
            assert(upto.drop_last() =~= s@.subrange(0, i as int));
            assert(upto.last() == s@[i as int]);
            assert(before.push(s@.subrange(start as int, i as int)).drop_last() =~= before);
        }
        if chars[i] == d {
            let piece = s.substring_char(start, i);
            out.push(piece);
            start = i + 1;
            proof {
                assert(strs_view(out@) =~= before.push(piece@));
                assert(s@.subrange(start as int, i + 1) =~= Seq::<char>::empty());
            }
        } else {
            proof {
                assert(s@.subrange(start as int, i + 1) =~= s@.subrange(
                    start as int,
                    i as int,
                ).push(s@[i as int]));
            }
        }
        i += 1;
    }
    let ghost before = strs_view(out@);
    let piece = s.substring_char(start, i);
    out.push(piece);
    proof {
        assert(s@.subrange(0, i as int) =~= s@);
        assert(strs_view(out@) =~= before.push(piece@));
    }
    out
}

/// `s` without the run of `c` at its end.
pub open spec fn without_trailing(s: Seq<char>, c: char) -> Seq<char>
    decreases s.len(),
{
    if s.len() > 0 && s.last() == c {
        without_trailing(s.drop_last(), c)
    } else {
        s
    }
}

/// `s` without the run of `c` at its start.
pub open spec fn without_leading(s: Seq<char>, c: char) -> Seq<char>
    decreases s.len(),
{
    if s.len() > 0 && s.first() == c {
        without_leading(s.drop_first(), c)
    } else {
        s
    }
}

/// `s` without the runs of `c` at its two ends.
pub open spec fn trimmed(s: Seq<char>, c: char) -> Seq<char> {
    without_trailing(without_leading(s, c), c)
}

/// The length of `s` without the run of `c` at its end.
fn trailing_cut(chars: &Vec<char>, from: usize, c: char) -> (end: usize)
    requires
        from <= chars.len(),
    ensures
        from <= end <= chars.len(),
        chars@.subrange(from as int, end as int) == without_trailing(
            chars@.subrange(from as int, chars.len() as int),
            c,
        ),
{
    let mut end: usize = chars.len();
    while end > from && chars[end - 1] == c
        invariant
            from <= end <= chars.len(),
            without_trailing(chars@.subrange(from as int, end as int), c) == without_trailing(
                chars@.subrange(from as int, chars.len() as int),
                c,
            ),
        decreases end,
    {
        proof {
            let cur = chars@.subrange(from as int, end as int);
            assert(cur.last() == c);
            assert(cur.drop_last() =~= chars@.subrange(from as int, end - 1));
        }
        end -= 1;
    }
    proof {
        let cur = chars@.subrange(from as int, end as int);
        if end > from {
            assert(cur.last() == chars@[end - 1]);
        }
    }
    end
}

/// The length of the run of `c` at the start of `chars`.
fn leading_cut(chars: &Vec<char>, c: char) -> (start: usize)
    ensures
        start <= chars.len(),
        chars@.subrange(start as int, chars.len() as int) == without_leading(chars@, c),
{
    let mut start: usize = 0;
    assert(chars@.subrange(0, chars.len() as int) =~= chars@);
    while start < chars.len() && chars[start] == c
        invariant
            start <= chars.len(),
            without_leading(chars@.subrange(start as int, chars.len() as int), c)
                == without_leading(chars@, c),
        decreases chars.len() - start,
    {
        proof {
            let cur = chars@.subrange(start as int, chars.len() as int);
            assert(cur.first() == c);
            assert(cur.drop_first() =~= chars@.subrange(start + 1, chars.len() as int));
        }
        start += 1;
    }
    proof {
        let cur = chars@.subrange(start as int, chars.len() as int);
        if start < chars.len() {
            assert(cur.first() == chars@[start as int]);
        }
    }
    start
}

/// `s` without the run of `c` at its end.
pub fn trim_end<'a>(s: &'a str, c: char) -> (r: &'a str)
    ensures
        r@ == without_trailing(s@, c),
{
    let chars = chars_of(s);
    let end = trailing_cut(&chars, 0, c);
    assert(chars@.subrange(0, chars.len() as int) =~= chars@);
    s.substring_char(0, end)
}

/// `s` without the runs of `c` at its two ends.
pub fn trim_both<'a>(s: &'a str, c: char) -> (r: &'a str)
    ensures
        r@ == trimmed(s@, c),
{
    let chars = chars_of(s);
    let start = leading_cut(&chars, c);
    let end = trailing_cut(&chars, start, c);
    s.substring_char(start, end)
}

/// Whether `c` is one of the ten decimal digits.
pub open spec fn is_digit(c: char) -> bool {
    '0' as u32 <= c as u32 <= '9' as u32
}

/// The number that a run of decimal digits writes, or `None` where one of
/// the characters is no digit. The empty run writes zero.
pub open spec fn digits_value(s: Seq<char>) -> Option<nat>
    decreases s.len(),
{
    if s.len() == 0 {
        Some(0)
    } else {
        match digits_value(s.drop_last()) {
            Some(v) => if is_digit(s.last()) {
                Some((v * 10 + (s.last() as u32 - '0' as u32)) as nat)
            } else {
                None
            },
            None => None,
        }
    }
}

/// The unsigned number that `s` writes in decimal: an optional `+`, then at
/// least one digit and nothing else, and a value that fits 64 bits.
pub open spec fn decimal_u64(s: Seq<char>) -> Option<u64> {
    let body = if s.len() > 0 && s[0] == '+' {
        s.drop_first()
    } else {
        s
    };
    if body.len() == 0 {
        None
    } else {
        match digits_value(body) {
            Some(v) => if v <= u64::MAX {
                Some(v as u64)
            } else {
                None
            },
            None => None,
        }
    }
}

/// Digits appended to a run never make its value smaller.
proof fn digits_value_grows(s: Seq<char>, n: int)
    requires
        0 <= n <= s.len(),
    ensures
        digits_value(s) matches Some(v) ==> digits_value(s.take(n)) matches Some(w) && w <= v,
    decreases s.len(),
{
    if n < s.len() {
        digits_value_grows(s.drop_last(), n);
        assert(s.drop_last().take(n) =~= s.take(n));
    } else {
        assert(s.take(n) =~= s);
    }
}

/// Reads `s` as an unsigned decimal number.
pub fn parse_u64(s: &str) -> (r: Option<u64>)
    ensures
        r == decimal_u64(s@),
{
    let chars = chars_of(s);
    let from: usize = if chars.len() > 0 && chars[0] == '+' {
        1
    } else {
        0
    };
    if from == chars.len() {
        return None;
    }
    let ghost body = s@.subrange(from as int, s@.len() as int);
    proof {
        if from == 1 {
            assert(body =~= s@.drop_first());
        } else {
            assert(body =~= s@);
        }
        assert(body.take(0) =~= Seq::<char>::empty());
    }
    let mut value: u64 = 0;
    let mut i: usize = from;
    while i < chars.len()
        invariant
            chars@ == s@,
            from <= i <= chars.len(),
            body == s@.subrange(from as int, s@.len() as int),
            body.len() > 0,
            body == if s@.len() > 0 && s@[0] == '+' {
                s@.drop_first()
            } else {
                s@
            },
            digits_value(body.take(i - from)) == Some(value as nat),
        decreases chars.len() - i,
    {
        let c = chars[i];
        let u: u32 = c as u32;
        proof {
            let upto = body.take(i - from + 1);
            assert(upto.drop_last() =~= body.take(i - from));
            assert(upto.last() == c);
            digits_value_grows(body, i - from + 1);
            assert('0' as u32 == 0x30 && '9' as u32 == 0x39);
            assert(is_digit(c) <==> 0x30 <= u <= 0x39);
            assert(digits_value(upto) == if is_digit(c) {
                Some((value * 10 + (u - 0x30)) as nat)
            } else {
                None::<nat>
            });
        }
        if u < 0x30 || u > 0x39 {
            return None;
        }
        let d: u64 = (u - 0x30) as u64;
        let next = match value.checked_mul(10) {
            Some(v) => v.checked_add(d),
            None => None,
        };
        match next {
            Some(v) => {
                value = v;
            },
            None => {
                return None;
            },
        }
        i += 1;
    }
    assert(body.take(i - from) =~= body);
    Some(value)
}

/// Whether `a` comes before `b` in the dictionary: at the first place
/// where they differ `a` has the lesser character, or `a` ends there and
/// `b` goes on.
pub open spec fn lex_less(a: Seq<char>, b: Seq<char>) -> bool
    decreases a.len(),
{
    if b.len() == 0 {
        false
    } else if a.len() == 0 {
        true
    } else if a[0] != b[0] {
        (a[0] as u32) < (b[0] as u32)
    } else {
        lex_less(a.skip(1), b.skip(1))
    }
}

/// Tells whether `a` comes before `b` in the dictionary.
pub fn less_text(a: &str, b: &str) -> (r: bool)
    ensures
        r == lex_less(a@, b@),
{
    let x = chars_of(a);
    let y = chars_of(b);
    let mut i: usize = 0;
    proof {
        assert(a@.skip(0) =~= a@);
        assert(b@.skip(0) =~= b@);
    }
    while i < x.len() && i < y.len()
        invariant
            x@ == a@,
            y@ == b@,
            i <= x.len(),
            i <= y.len(),
            lex_less(a@, b@) == lex_less(a@.skip(i as int), b@.skip(i as int)),
        decreases x.len() - i,
    {
        proof {
            assert(a@.skip(i as int)[0] == x@[i as int]);
            assert(b@.skip(i as int)[0] == y@[i as int]);
            assert(a@.skip(i as int).skip(1) =~= a@.skip(i + 1));
            assert(b@.skip(i as int).skip(1) =~= b@.skip(i + 1));
        }
        if x[i] != y[i] {
            return (x[i] as u32) < (y[i] as u32);
        }
        i += 1;
    }
    i < y.len()
}

/// Of two texts at most one comes before the other.
pub proof fn lex_less_is_one_way(a: Seq<char>, b: Seq<char>)
    ensures
        !(lex_less(a, b) && lex_less(b, a)),
    decreases a.len(),
{
    if a.len() > 0 && b.len() > 0 && a[0] == b[0] {
        lex_less_is_one_way(a.skip(1), b.skip(1));
    }
}

} // verus!
