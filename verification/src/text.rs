use vstd::prelude::*;

verus! {

/// `String::push`: appends one character to the string.
#[verifier::external_body]
pub(crate) fn push_char(s: &mut String, c: char)
    ensures
        final(s)@ == old(s)@.push(c),
{
    s.push(c);
}

/// The characters of a string slice, in order.
pub(crate) fn chars_of(s: &str) -> (r: Vec<char>)
    ensures
        r@ == s@,
{
    broadcast use vstd::string::group_string_axioms;
    let mut out: Vec<char> = Vec::new();
    let mut it = s.chars();
    loop
        invariant
            out@ + vstd::std_specs::iter::IteratorSpec::remaining(&it) == s@,
            vstd::std_specs::iter::IteratorSpec::decrease(&it) is Some,
        ensures
            out@ == s@,
        decreases vstd::std_specs::iter::IteratorSpec::decrease(&it)->0,
    {
        match it.next() {
            Some(c) => {
                out.push(c);
            },
            None => {
                assert(out@ + vstd::std_specs::iter::IteratorSpec::remaining(&it) == out@);
                break;
            },
        }
    }
    out
}


/// The character of a decimal digit `d` (0 to 9).
pub open spec fn digit_char(d: int) -> char {
    (d + 48) as char
}

/// Decimal rendering of a natural number, most significant digit first, no leading zeros.
pub open spec fn decimal(n: nat) -> Seq<char>
    decreases n,
{
    if n < 10 {
        seq![digit_char(n as int)]
    } else {
        decimal(n / 10).push(digit_char((n % 10) as int))
    }
}

/// Decimal rendering of an integer, with a leading `-` when it is negative.
pub open spec fn signed_decimal(n: int) -> Seq<char> {
    if n < 0 {
        seq!['-'] + decimal((-n) as nat)
    } else {
        decimal(n as nat)
    }
}

/// Appends the decimal rendering of `n`.
pub fn push_decimal(s: &mut String, n: u128)
    ensures
        final(s)@ == old(s)@ + decimal(n as nat),
    decreases n,
{
    if n < 10 {
        push_char(s, ((n as u8) + 48u8) as char);
    } else {
        push_decimal(s, n / 10);
        push_char(s, (((n % 10) as u8) + 48u8) as char);
    }
}

/// Appends the decimal rendering of a signed number.
pub fn push_signed_decimal(s: &mut String, n: i64)
    ensures
        final(s)@ == old(s)@ + signed_decimal(n as int),
{
    if n < 0 {
        push_char(s, '-');
        let m: u64 = if n == i64::MIN {
            9223372036854775808u64
        } else {
            (-n) as u64
        };
        push_decimal(s, m as u128);
    } else {
        push_decimal(s, n as u128);
    }
}

/// `pat` occurs in `hay` as a contiguous run of characters.
pub open spec fn has_infix(hay: Seq<char>, pat: Seq<char>) -> bool {
    exists|i: int|
        0 <= i && i + pat.len() <= hay.len() && #[trigger] hay.subrange(i, i + pat.len()) == pat
}

fn matches_at(hay: &Vec<char>, pat: &Vec<char>, at: usize) -> (r: bool)
    requires
        at + pat@.len() <= hay@.len(),
    ensures
        r == (hay@.subrange(at as int, at + pat@.len()) == pat@),
{
    let mut j: usize = 0;
    while j < pat.len()
        invariant
            at + pat@.len() <= hay.len(),
            j <= pat@.len(),
            forall|k: int| 0 <= k < j ==> hay@[at + k] == pat@[k],
        decreases pat@.len() - j,
    {
        if hay[at + j] != pat[j] {
            assert(hay@.subrange(at as int, at + pat@.len())[j as int] != pat@[j as int]);
            return false;
        }
        j = j + 1;
    }
    assert(hay@.subrange(at as int, at + pat@.len()) =~= pat@);
    true
}

/// Whether `pat` occurs in `hay`.
pub fn contains_text(hay: &str, pat: &str) -> (r: bool)
    ensures
        r == has_infix(hay@, pat@),
{
    let h = chars_of(hay);
    let p = chars_of(pat);
    if p.len() == 0 {
        assert(hay@.subrange(0, 0 + pat@.len() as int) =~= pat@);
        return true;
    }
    if p.len() > h.len() {
        return false;
    }
    let last: usize = h.len() - p.len();
    let mut i: usize = 0;
    while i <= last
        invariant
            h@ == hay@,
            p@ == pat@,
            last == h.len() - p.len(),
            p@.len() >= 1,
            i <= last + 1,
            forall|k: int| 0 <= k < i ==> #[trigger] h@.subrange(k, k + p@.len()) != p@,
        decreases last + 1 - i,
    {
        if matches_at(&h, &p, i) {
            return true;
        }
        i = i + 1;
    }
    false
}

/// `s` with every occurrence of `from` replaced by `to`.
pub open spec fn replace_char_spec(s: Seq<char>, from: char, to: char) -> Seq<char> {
    s.map_values(|c: char| if c == from { to } else { c })
}

/// Replaces every occurrence of one character by another.
pub fn replace_char(s: &str, from: char, to: char) -> (r: String)
    ensures
        r@ == replace_char_spec(s@, from, to),
{
    let cs = chars_of(s);
    let mut out = String::new();
    let mut i: usize = 0;
    while i < cs.len()
        invariant
            cs@ == s@,
            i <= cs@.len(),
            out@ == replace_char_spec(s@, from, to).take(i as int),
        decreases cs@.len() - i,
    {
        let c = cs[i];
        if c == from {
            push_char(&mut out, to);
        } else {
            push_char(&mut out, c);
        }
        assert(replace_char_spec(s@, from, to).take(i + 1) =~= replace_char_spec(s@, from, to).take(
            i as int,
        ).push(if c == from { to } else { c }));
        i = i + 1;
    }
    assert(replace_char_spec(s@, from, to).take(i as int) =~= replace_char_spec(s@, from, to));
    out
}

/// Index of the first `c` in `s`, or `s.len()` when there is none.
pub open spec fn find_char(s: Seq<char>, c: char) -> int
    decreases s.len(),
{
    if s.len() == 0 {
        0
    } else if s[0] == c {
        0
    } else {
        1 + find_char(s.drop_first(), c)
    }
}

proof fn lemma_find_char(s: Seq<char>, c: char)
    ensures
        0 <= find_char(s, c) <= s.len(),
        forall|k: int| 0 <= k < find_char(s, c) ==> s[k] != c,
        find_char(s, c) < s.len() ==> s[find_char(s, c)] == c,
    decreases s.len(),
{
    if s.len() > 0 && s[0] != c {
        lemma_find_char(s.drop_first(), c);
        assert forall|k: int| 0 <= k < find_char(s, c) implies s[k] != c by {
            if k > 0 {
                assert(s[k] == s.drop_first()[k - 1]);
            }
        }
    }
}

/// Finds the first `c` in `s` (characters given as a vector).
fn find_char_in(s: &Vec<char>, c: char, from: usize) -> (r: usize)
    requires
        from <= s@.len(),
    ensures
        r - from == find_char(s@.skip(from as int), c),
        from <= r <= s@.len(),
{
    let mut i: usize = from;
    while i < s.len()
        invariant
            from <= i <= s@.len(),
            forall|k: int| from <= k < i ==> s@[k] != c,
        ensures
            from <= i <= s@.len(),
            forall|k: int| from <= k < i ==> s@[k] != c,
            i < s@.len() ==> s@[i as int] == c,
        decreases s@.len() - i,
    {
        if s[i] == c {
            break;
        }
        i = i + 1;
    }
    proof {
        let t = s@.skip(from as int);
        lemma_find_char(t, c);
        let f = find_char(t, c);
        if f < i - from {
            assert(t[f] == s@[from + f]);
        }
        if f > i - from {
            assert(t[i - from] == s@[i as int]);
        }
    }
    i
}

/// The first two fields of `s` split at `sep`: the text before the first `sep`, and, when
/// `s` holds a `sep`, the text between the first `sep` and the next one (or the end).
pub open spec fn split_two(s: Seq<char>, sep: char) -> (Seq<char>, Option<Seq<char>>) {
    let i = find_char(s, sep);
    if i < s.len() {
        let rest = s.skip(i + 1);
        (s.take(i), Some(rest.take(find_char(rest, sep))))
    } else {
        (s, None)
    }
}

fn string_from_range(cs: &Vec<char>, lo: usize, hi: usize) -> (r: String)
    requires
        lo <= hi <= cs@.len(),
    ensures
        r@ == cs@.subrange(lo as int, hi as int),
{
    let mut out = String::new();
    let mut i: usize = lo;
    while i < hi
        invariant
            lo <= i <= hi <= cs@.len(),
            out@ == cs@.subrange(lo as int, i as int),
        decreases hi - i,
    {
        push_char(&mut out, cs[i]);
        assert(cs@.subrange(lo as int, i + 1) =~= cs@.subrange(lo as int, i as int).push(cs@[i as int]));
        i = i + 1;
    }
    out
}

/// Splits `s` at `sep` and keeps the first two fields (see `split_two`).
pub fn split_first_two(s: &str, sep: char) -> (r: (String, Option<String>))
    ensures
        r.0@ == split_two(s@, sep).0,
        r.1 is Some <==> split_two(s@, sep).1 is Some,
        r.1 matches Some(t) ==> t@ == split_two(s@, sep).1->0,
{
    let cs = chars_of(s);
    let i = find_char_in(&cs, sep, 0);
    assert(cs@.skip(0) =~= cs@);
    if i < cs.len() {
        let j = find_char_in(&cs, sep, i + 1);
        let first = string_from_range(&cs, 0, i);
        let second = string_from_range(&cs, i + 1, j);
        assert(cs@.take(i as int) =~= cs@.subrange(0, i as int));
        assert(s@.skip(i + 1).take(j - (i + 1)) =~= cs@.subrange(i + 1, j as int));
        (first, Some(second))
    } else {
        let first = string_from_range(&cs, 0, i);
        assert(cs@.subrange(0, i as int) =~= cs@);
        (first, None)
    }
}

/// Whether `c` is an ASCII decimal digit.
pub open spec fn is_digit(c: char) -> bool {
    '0' <= c <= '9'
}

/// Value of a run of decimal digits.
pub open spec fn digits_value(ds: Seq<char>) -> nat
    decreases ds.len(),
{
    if ds.len() == 0 {
        0
    } else {
        digits_value(ds.drop_last()) * 10 + ((ds.last() as int - 48) as nat)
    }
}

/// Every character of `ds` is a decimal digit.
pub open spec fn all_digits(ds: Seq<char>) -> bool {
    forall|k: int| 0 <= k < ds.len() ==> is_digit(#[trigger] ds[k])
}

/// `s` without one leading `+`, if it has one.
pub open spec fn strip_plus(s: Seq<char>) -> Seq<char> {
    if s.len() > 0 && s[0] == '+' {
        s.drop_first()
    } else {
        s
    }
}

/// What `str::parse::<u16>` gives: an optional `+` and then at least one decimal digit,
/// and nothing else, whose value fits in 16 bits.
pub open spec fn parse_u16_spec(s: Seq<char>) -> Option<u16> {
    let ds = strip_plus(s);
    if ds.len() > 0 && all_digits(ds) && digits_value(ds) <= 65535 {
        Some(digits_value(ds) as u16)
    } else {
        None
    }
}

proof fn lemma_digits_value_grows(ds: Seq<char>, n: int)
    requires
        0 <= n <= ds.len(),
        all_digits(ds),
    ensures
        digits_value(ds.take(n)) <= digits_value(ds),
    decreases ds.len() - n,
{
    if n < ds.len() {
        lemma_digits_value_grows(ds, n + 1);
        assert(ds.take(n + 1).drop_last() =~= ds.take(n));
    } else {
        assert(ds.take(n) =~= ds);
    }
}

/// Parses a port number the way `str::parse::<u16>` does.
pub fn parse_u16(s: &str) -> (r: Option<u16>)
    ensures
        r == parse_u16_spec(s@),
{
    let cs = chars_of(s);
    let start: usize = if cs.len() > 0 && cs[0] == '+' {
        1
    } else {
        0
    };
    let ghost ds = strip_plus(s@);
    assert(ds =~= cs@.skip(start as int));
    if start >= cs.len() {
        return None;
    }
    let mut value: u32 = 0;
    let mut i: usize = start;
    while i < cs.len()
        invariant
            cs@ == s@,
            ds == strip_plus(s@),
            ds == cs@.skip(start as int),
            start <= i <= cs@.len(),
            forall|k: int| 0 <= k < i - start ==> is_digit(#[trigger] ds[k]),
            value == digits_value(ds.take(i - start)),
            value <= 65535,
        decreases cs@.len() - i,
    {
        let c = cs[i];
        if !('0' <= c && c <= '9') {
            assert(ds[i - start] == c);
            assert(!is_digit(ds[i - start]));
            return None;
        }
        let d: u32 = (c as u32) - 48;
        assert(ds.take(i + 1 - start).drop_last() =~= ds.take(i - start));
        if value > 6553 || (value == 6553 && d > 5) {
            proof {
                let n = i + 1 - start;
                assert(digits_value(ds.take(n)) > 65535);
                if all_digits(ds) {
                    lemma_digits_value_grows(ds, n);
                }
            }
            return None;
        }
        value = value * 10 + d;
        i = i + 1;
    }
    assert(ds.take(i - start) =~= ds);
    Some(value as u16)
}

/// Whether two strings hold the same characters.
pub fn same_text(a: &str, b: &str) -> (r: bool)
    ensures
        r == (a@ == b@),
{
    let x = chars_of(a);
    let y = chars_of(b);
    if x.len() != y.len() {
        return false;
    }
    let mut i: usize = 0;
    while i < x.len()
        invariant
            x@ == a@,
            y@ == b@,
            x@.len() == y@.len(),
            i <= x@.len(),
            forall|k: int| 0 <= k < i ==> x@[k] == y@[k],
        decreases x@.len() - i,
    {
        if x[i] != y[i] {
            return false;
        }
        i = i + 1;
    }
    assert(x@ =~= y@);
    true
}

} // verus!
