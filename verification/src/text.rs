//! Character-level helpers shared by the text-processing modules.
use vstd::prelude::*;
use vstd::string::StringSliceAdditionalSpecFns;

verus! {

broadcast use vstd::string::group_string_axioms;

/// The characters of `s`, in order.
pub fn str_chars(s: &str) -> (v: Vec<char>)
    ensures
        v@ == s@,
{
    let mut v: Vec<char> = Vec::new();
    for c in it: s.chars()
        invariant
            v@ == it.seq().take(it.index() as int),
            it.seq() == s@,
    {
        v.push(c);
    }
    v
}

/// `String::from_iter` over the given characters: the string holds exactly
/// those characters, in order.
#[verifier::external_body]
pub fn string_from_chars(v: &[char]) -> (s: String)
    ensures
        s@ == v@,
{
    String::from_iter(v.iter())
}

/// `String::from_iter` over `v[start..end]`: the string holds exactly those
/// characters, in order.
#[verifier::external_body]
pub fn string_from_char_range(v: &[char], start: usize, end: usize) -> (s: String)
    requires
        start <= end <= v@.len(),
    ensures
        s@ == v@.subrange(start as int, end as int),
{
    String::from_iter(v[start..end].iter())
}

/// Position of the first line feed in `s`, or its length when there is none.
pub open spec fn first_newline(s: Seq<char>) -> int
    decreases s.len(),
{
    if s.len() == 0 {
        0
    } else if s[0] == '\n' {
        0
    } else {
        1 + first_newline(s.drop_first())
    }
}

/// A line without its carriage return, when it ended in `\r\n`.
pub open spec fn strip_cr(l: Seq<char>) -> Seq<char> {
    if l.len() > 0 && l.last() == '\r' {
        l.drop_last()
    } else {
        l
    }
}

/// The lines of a text, as `str::lines` yields them: split at `\n` or
/// `\r\n`, terminators removed, the final terminator optional.
pub open spec fn lines_of(s: Seq<char>) -> Seq<Seq<char>>
    decreases s.len(),
{
    if s.len() == 0 {
        seq![]
    } else {
        let i = first_newline(s);
        proof {
            lemma_first_newline_range(s);
        }
        if i >= s.len() {
            seq![s]
        } else {
            seq![strip_cr(s.take(i))] + lines_of(s.skip(i + 1))
        }
    }
}

pub proof fn lemma_first_newline_range(s: Seq<char>)
    ensures
        0 <= first_newline(s) <= s.len(),
    decreases s.len(),
{
    if s.len() > 0 {
        lemma_first_newline_range(s.drop_first());
    }
}

/// How a text splits into lines: a line ended by `\r\n` is the text before
/// the `\r`, a line ended by `\n` alone is the text before it, and a last
/// line with no terminator is kept whole; an empty text has no lines.
pub proof fn lemma_lines_of_terminators(a: Seq<char>, rest: Seq<char>)
    requires
        !a.contains('\n'),
    ensures
        lines_of(a + seq!['\r', '\n'] + rest) == seq![a] + lines_of(rest),
        (a.len() == 0 || a.last() != '\r') ==> lines_of(a + seq!['\n'] + rest) == seq![a] + lines_of(rest),
        a.len() > 0 ==> lines_of(a) == seq![a],
        lines_of(Seq::<char>::empty()) == Seq::<Seq<char>>::empty(),
{
    let t = a + seq!['\r', '\n'] + rest;
    let n = a.len() as int;
    assert forall|j: int| 0 <= j < a.len() implies a[j] != '\n' by {
        if a[j] == '\n' {
            assert(a.contains('\n'));
        }
    }
    lemma_first_newline(t, n + 1);
    assert(t.take(n + 1) =~= a.push('\r'));
    assert(t.take(n + 1).drop_last() =~= a);
    assert(t.skip(n + 2) =~= rest);
    let u = a + seq!['\n'] + rest;
    lemma_first_newline(u, a.len() as int);
    assert(u.take(a.len() as int) =~= a);
    assert(u.skip(n + 1) =~= rest);
    if a.len() > 0 {
        lemma_first_newline(a, a.len() as int);
    }
}

pub proof fn lemma_first_newline(t: Seq<char>, k: int)
    requires
        0 <= k <= t.len(),
        k < t.len() ==> t[k] == '\n',
        forall|j: int| 0 <= j < k ==> t[j] != '\n',
    ensures
        first_newline(t) == k,
    decreases k,
{
    if k > 0 {
        lemma_first_newline(t.drop_first(), k - 1);
    }
}

/// Splits `s` into lines, with the semantics of `str::lines`.
pub fn split_lines(s: &str) -> (r: Vec<String>)
    ensures
        r@.map_values(|l: String| l@) == lines_of(s@),
{
    let v = str_chars(s);
    let n = v.len();
    let mut out: Vec<String> = Vec::new();
    let mut start: usize = 0;
    let mut i: usize = 0;
    proof {
        assert(v@.subrange(0, n as int) == v@);
    }
    while i < n
        invariant
            n == v@.len(),
            v@ == s@,
            0 <= start <= i <= n,
            forall|j: int| start <= j < i ==> v@[j] != '\n',
            lines_of(v@) == out@.map_values(|l: String| l@) + lines_of(v@.subrange(start as int, n as int)),
        decreases n - i,
    {
        if v[i] == '\n' {
            let ghost t = v@.subrange(start as int, n as int);
            proof {
                lemma_first_newline(t, (i - start) as int);
                assert(t.take((i - start) as int) == v@.subrange(start as int, i as int));
                assert(t.skip((i - start) as int + 1) == v@.subrange(i + 1, n as int));
            }
            let end: usize = if i > start && v[i - 1] == '\r' {
                i - 1
            } else {
                i
            };
            let line = string_from_char_range(&v, start, end);
            let ghost before = out@.map_values(|l: String| l@);
            out.push(line);
            proof {
                assert(out@.map_values(|l: String| l@) == before.push(line@));
                assert(line@ == strip_cr(v@.subrange(start as int, i as int)));
                assert(lines_of(t) == seq![line@] + lines_of(v@.subrange(i + 1, n as int)));
                assert(before.push(line@) + lines_of(v@.subrange(i + 1, n as int))
                    == before + (seq![line@] + lines_of(v@.subrange(i + 1, n as int))));
            }
            start = i + 1;
        }
        i = i + 1;
    }
    let ghost t = v@.subrange(start as int, n as int);
    if start < n {
        proof {
            lemma_first_newline(t, (n - start) as int);
        }
        let line = string_from_char_range(&v, start, n);
        let ghost before = out@.map_values(|l: String| l@);
        out.push(line);
        proof {
            assert(out@.map_values(|l: String| l@) == before.push(line@));
            assert(lines_of(t) == seq![line@]);
        }
    } else {
        proof {
            assert(t.len() == 0);
            assert(lines_of(t) == Seq::<Seq<char>>::empty());
            assert(out@.map_values(|l: String| l@) + Seq::<Seq<char>>::empty() == out@.map_values(|l: String| l@));
        }
    }
    out
}

/// The ASCII digit for `d` (0..=9).
pub open spec fn digit_char(d: int) -> char {
    (48 + d) as char
}

/// Decimal representation of `n`, without leading zeros.
pub open spec fn decimal(n: nat) -> Seq<char>
    decreases n,
{
    if n < 10 {
        seq![digit_char(n as int)]
    } else {
        decimal(n / 10).push(digit_char((n % 10) as int))
    }
}

/// `k` zero digits (none when `k <= 0`).
pub open spec fn zeros(k: int) -> Seq<char> {
    Seq::new(if k > 0 { k as nat } else { 0 }, |i: int| '0')
}

/// `format!("{:0w$}", v)`: decimal of `v`, zero-padded after the sign to
/// `width` characters.
pub open spec fn padded(v: int, width: int) -> Seq<char> {
    if v < 0 {
        seq!['-'] + zeros(width - 1 - decimal((-v) as nat).len()) + decimal((-v) as nat)
    } else {
        zeros(width - decimal(v as nat).len()) + decimal(v as nat)
    }
}

/// `format!("{}", v)`
pub open spec fn signed_decimal(v: int) -> Seq<char> {
    padded(v, 0)
}

/// The digit character for `d < 10`.
pub fn digit(d: u128) -> (c: char)
    requires
        d < 10,
    ensures
        c == digit_char(d as int),
{
    let b: u8 = 48u8 + d as u8;
    b as char
}

/// Appends the decimal representation of `n`.
pub fn push_decimal(out: &mut Vec<char>, n: u128)
    ensures
        final(out)@ == old(out)@ + decimal(n as nat),
    decreases n,
{
    if n >= 10 {
        push_decimal(out, n / 10);
    }
    out.push(digit(n % 10));
    proof {
        if n >= 10 {
            assert(decimal(n as nat) == decimal((n / 10) as nat).push(digit_char((n % 10) as int)));
        }
    }
}

/// Appends `v` formatted as `{:0width$}`.
pub fn push_padded(out: &mut Vec<char>, v: i128, width: usize)
    requires
        v > i128::MIN,
    ensures
        final(out)@ == old(out)@ + padded(v as int, width as int),
{
    let mut digits: Vec<char> = Vec::new();
    let mag: u128 = if v < 0 {
        (-v) as u128
    } else {
        v as u128
    };
    push_decimal(&mut digits, mag);
    let ghost base = old(out)@;
    let mut pre: Vec<char> = Vec::new();
    if v < 0 {
        pre.push('-');
    }
    let sign_len: usize = if v < 0 {
        1
    } else {
        0
    };
    let mut k: usize = 0;
    let fill: usize = if width > sign_len && width - sign_len > digits.len() {
        width - sign_len - digits.len()
    } else {
        0
    };
    while k < fill
        invariant
            0 <= k <= fill,
            pre@.len() == sign_len + k,
            v < 0 ==> pre@ == seq!['-'] + zeros(k as int),
            v >= 0 ==> pre@ == zeros(k as int),
        decreases fill - k,
    {
        pre.push('0');
        k = k + 1;
        proof {
            if v < 0 {
                assert(seq!['-'] + zeros(k as int) == (seq!['-'] + zeros(k - 1)).push('0'));
            } else {
                assert(zeros(k as int) == zeros(k - 1).push('0'));
            }
        }
    }
    pre.append(&mut digits);
    out.append(&mut pre);
    proof {
        if v < 0 {
            assert(zeros(fill as int) == zeros(width as int - 1 - decimal((-v) as nat).len()));
        } else {
            assert(zeros(fill as int) == zeros(width as int - decimal(v as nat).len()));
        }
    }
}

/// Appends the characters of a string literal or slice.
pub fn push_str(out: &mut Vec<char>, s: &str)
    ensures
        final(out)@ == old(out)@ + s@,
{
    let mut cs = str_chars(s);
    out.append(&mut cs);
}

/// Whether two strings hold the same characters.
pub fn str_eq(a: &str, b: &str) -> (r: bool)
    ensures
        r == (a@ == b@),
{
    let x = str_chars(a);
    let y = str_chars(b);
    if x.len() != y.len() {
        return false;
    }
    let mut i: usize = 0;
    while i < x.len()
        invariant
            x@ == a@,
            y@ == b@,
            x@.len() == y@.len(),
            0 <= i <= x@.len(),
            forall|j: int| 0 <= j < i ==> x@[j] == y@[j],
        decreases x@.len() - i,
    {
        if x[i] != y[i] {
            return false;
        }
        i = i + 1;
    }
    proof {
        assert(x@ =~= y@);
    }
    true
}

/// Whether `c` is a Unicode `White_Space` character (`char::is_whitespace`).
pub open spec fn is_whitespace(c: char) -> bool {
    let u = c as u32;
    ||| 0x09 <= u <= 0x0D
    ||| u == 0x20
    ||| u == 0x85
    ||| u == 0xA0
    ||| u == 0x1680
    ||| 0x2000 <= u <= 0x200A
    ||| u == 0x2028
    ||| u == 0x2029
    ||| u == 0x202F
    ||| u == 0x205F
    ||| u == 0x3000
}

/// `char::is_whitespace`
pub fn char_is_whitespace(c: char) -> (r: bool)
    ensures
        r == is_whitespace(c),
{
    let u = c as u32;
    (0x09 <= u && u <= 0x0D) || u == 0x20 || u == 0x85 || u == 0xA0 || u == 0x1680 || (0x2000 <= u
        && u <= 0x200A) || u == 0x2028 || u == 0x2029 || u == 0x202F || u == 0x205F || u == 0x3000
}

/// `s` without leading whitespace.
pub open spec fn trim_start_ws(s: Seq<char>) -> Seq<char>
    decreases s.len(),
{
    if s.len() > 0 && is_whitespace(s[0]) {
        trim_start_ws(s.drop_first())
    } else {
        s
    }
}

/// `s` without trailing whitespace.
pub open spec fn trim_end_ws(s: Seq<char>) -> Seq<char>
    decreases s.len(),
{
    if s.len() > 0 && is_whitespace(s.last()) {
        trim_end_ws(s.drop_last())
    } else {
        s
    }
}

/// `s` without leading and trailing whitespace (`str::trim`).
pub open spec fn trim_ws(s: Seq<char>) -> Seq<char> {
    trim_end_ws(trim_start_ws(s))
}

/// `str::trim`: the slice of `s` without leading and trailing Unicode
/// whitespace.
#[verifier::external_body]
pub fn str_trim(s: &str) -> (r: &str)
    ensures
        r@ == trim_ws(s@),
{
    s.trim()
}

/// Whether `b` is an ASCII digit byte.
pub open spec fn is_digit_byte(b: u8) -> bool {
    48 <= b <= 57
}

/// Value of a run of ASCII digit bytes.
pub open spec fn digits_value(b: Seq<u8>) -> nat
    decreases b.len(),
{
    if b.len() == 0 {
        0
    } else {
        digits_value(b.drop_last()) * 10 + (b.last() - 48) as nat
    }
}

pub open spec fn all_digits(b: Seq<u8>) -> bool {
    forall|i: int| 0 <= i < b.len() ==> is_digit_byte(#[trigger] b[i])
}

/// The integer that `str::parse` reads from these bytes: an optional `+`
/// or `-` sign followed by at least one ASCII digit. The range of the
/// target type is checked by the callers.
pub open spec fn parse_int(b: Seq<u8>) -> Option<int> {
    if b.len() > 0 && (b[0] == 43 || b[0] == 45) {
        let d = b.drop_first();
        if d.len() > 0 && all_digits(d) {
            Some(if b[0] == 45 { -(digits_value(d) as int) } else { digits_value(d) as int })
        } else {
            None
        }
    } else if b.len() > 0 && all_digits(b) {
        Some(digits_value(b) as int)
    } else {
        None
    }
}

pub open spec fn pow10(n: nat) -> nat
    decreases n,
{
    if n == 0 {
        1
    } else {
        10 * pow10((n - 1) as nat)
    }
}

/// A run of `n` digits is below `10^n`.
pub proof fn lemma_digits_value_bound(b: Seq<u8>)
    requires
        all_digits(b),
    ensures
        digits_value(b) < pow10(b.len()),
    decreases b.len(),
{
    if b.len() > 0 {
        let d = b.drop_last();
        assert(all_digits(d)) by {
            assert forall|i: int| 0 <= i < d.len() implies is_digit_byte(#[trigger] d[i]) by {
                assert(d[i] == b[i]);
            }
        }
        lemma_digits_value_bound(d);
        assert(is_digit_byte(b[b.len() - 1]));
    }
}

/// `str::parse::<i64>` on bytes.
pub open spec fn parse_i64_spec(b: Seq<u8>) -> Option<int> {
    match parse_int(b) {
        Some(v) => if i64::MIN <= v <= i64::MAX {
            Some(v)
        } else {
            None
        },
        None => None,
    }
}

/// `str::parse::<u64>` on bytes (a `-` sign is refused, a `+` accepted).
pub open spec fn parse_u64_spec(b: Seq<u8>) -> Option<int> {
    if b.len() > 0 && b[0] == 45 {
        None
    } else {
        match parse_int(b) {
            Some(v) => if 0 <= v <= u64::MAX {
                Some(v)
            } else {
                None
            },
            None => None,
        }
    }
}

/// Value of the digit bytes `b[a..e]`, capped at 2^64.
fn digits_capped(b: &[u8], a: usize, e: usize) -> (r: Option<u128>)
    requires
        a <= e <= b@.len(),
    ensures
        all_digits(b@.subrange(a as int, e as int)) <==> r is Some,
        r matches Some(v) ==> v == if digits_value(b@.subrange(a as int, e as int)) < 0x1_0000_0000_0000_0000 {
            digits_value(b@.subrange(a as int, e as int))
        } else {
            0x1_0000_0000_0000_0000
        },
{
    let big: u128 = 0x1_0000_0000_0000_0000;
    let mut acc: u128 = 0;
    let mut i: usize = a;
    while i < e
        invariant
            big == 0x1_0000_0000_0000_0000u128,
            a <= i <= e <= b@.len(),
            all_digits(b@.subrange(a as int, i as int)),
            acc == if digits_value(b@.subrange(a as int, i as int)) < big {
                digits_value(b@.subrange(a as int, i as int))
            } else {
                big as nat
            },
        decreases e - i,
    {
        let c = b[i];
        if c < 48 || c > 57 {
            proof {
                assert(b@.subrange(a as int, e as int)[i - a] == c);
            }
            return None;
        }
        proof {
            let p = b@.subrange(a as int, i as int);
            let q = b@.subrange(a as int, i + 1);
            assert(q.drop_last() == p);
            assert(q.last() == c);
            assert(digits_value(q) == digits_value(p) * 10 + (c - 48) as nat);
            assert forall|j: int| 0 <= j < q.len() implies is_digit_byte(#[trigger] q[j]) by {
                if j < p.len() {
                    assert(q[j] == p[j]);
                }
            }
        }
        if acc < big {
            assert(acc * 10 < big * 10) by (nonlinear_arith)
                requires
                    acc < big,
            ;
            let v = acc * 10 + (c - 48) as u128;
            acc = if v < big {
                v
            } else {
                big
            };
        }
        i = i + 1;
    }
    Some(acc)
}

/// `str::parse::<i64>` on the bytes `b[a..e]`.
pub fn parse_i64_bytes(b: &[u8], a: usize, e: usize) -> (r: Option<i64>)
    requires
        a <= e <= b@.len(),
    ensures
        match (r, parse_i64_spec(b@.subrange(a as int, e as int))) {
            (Some(x), Some(y)) => x == y,
            (None, None) => true,
            _ => false,
        },
{
    let ghost s = b@.subrange(a as int, e as int);
    if a < e && (b[a] == 43 || b[a] == 45) {
        proof {
            assert(s[0] == b@[a as int]);
            assert(s.drop_first() == b@.subrange(a + 1, e as int));
        }
        if a + 1 == e {
            return None;
        }
        match digits_capped(b, a + 1, e) {
            None => None,
            Some(v) => {
                if b[a] == 45 {
                    if v <= 0x8000_0000_0000_0000 {
                        Some((0 - v as i128) as i64)
                    } else {
                        None
                    }
                } else {
                    if v <= 0x7fff_ffff_ffff_ffff {
                        Some(v as i64)
                    } else {
                        None
                    }
                }
            },
        }
    } else {
        if a == e {
            return None;
        }
        match digits_capped(b, a, e) {
            None => None,
            Some(v) => if v <= 0x7fff_ffff_ffff_ffff {
                Some(v as i64)
            } else {
                None
            },
        }
    }
}

/// `str::parse::<u64>` on the bytes `b[a..e]`.
pub fn parse_u64_bytes(b: &[u8], a: usize, e: usize) -> (r: Option<u64>)
    requires
        a <= e <= b@.len(),
    ensures
        match (r, parse_u64_spec(b@.subrange(a as int, e as int))) {
            (Some(x), Some(y)) => x == y,
            (None, None) => true,
            _ => false,
        },
{
    let ghost s = b@.subrange(a as int, e as int);
    if a == e || b[a] == 45 {
        proof {
            if a < e {
                assert(s[0] == b@[a as int]);
            }
        }
        return None;
    }
    let start = if b[a] == 43 {
        a + 1
    } else {
        a
    };
    proof {
        assert(s[0] == b@[a as int]);
        if b@[a as int] == 43 {
            assert(s.drop_first() == b@.subrange(a + 1, e as int));
        }
    }
    if start == e {
        return None;
    }
    match digits_capped(b, start, e) {
        None => None,
        Some(v) => if v <= 0xffff_ffff_ffff_ffff {
            Some(v as u64)
        } else {
            None
        },
    }
}

/// The bytes of ASCII characters, one byte each.
pub open spec fn ascii_bytes(s: Seq<char>) -> Seq<u8> {
    s.map_values(|c: char| c as u8)
}

proof fn lemma_digits_value_concat(p: Seq<u8>, q: Seq<u8>)
    ensures
        digits_value(p + q) == digits_value(p) * pow10(q.len()) + digits_value(q),
    decreases q.len(),
{
    if q.len() == 0 {
        assert(p + q =~= p);
        assert(digits_value(q) == 0);
        assert(pow10(q.len()) == 1);
        assert(digits_value(p) * 1 == digits_value(p));
    } else {
        let q0 = q.drop_last();
        lemma_digits_value_concat(p, q0);
        assert((p + q).drop_last() =~= p + q0);
        assert((p + q).last() == q.last());
        let a = digits_value(p);
        let b = digits_value(q0);
        let t = pow10(q0.len());
        let l = (q.last() - 48) as nat;
        assert(pow10(q.len()) == 10 * t);
        assert(digits_value(p + q) == digits_value(p + q0) * 10 + l);
        assert(digits_value(q) == b * 10 + l) by {
            assert(q.drop_last() == q0);
        }
        assert((a * t + b) * 10 + l == a * (10 * t) + (b * 10 + l)) by (nonlinear_arith);
    }
}

proof fn lemma_digit_byte(d: int)
    requires
        0 <= d < 10,
    ensures
        digit_char(d) as u8 == 48 + d,
        '0' <= digit_char(d) <= '9',
{
}

/// The decimal digits of `n` are ASCII digits that read back as `n`.
pub proof fn lemma_decimal_reads_back(n: nat)
    ensures
        decimal(n).len() >= 1,
        forall|k: int| 0 <= k < decimal(n).len() ==> '0' <= #[trigger] decimal(n)[k] <= '9',
        all_digits(ascii_bytes(decimal(n))),
        digits_value(ascii_bytes(decimal(n))) == n,
    decreases n,
{
    if n < 10 {
        lemma_digit_byte(n as int);
        let sb = ascii_bytes(decimal(n));
        assert(sb =~= seq![(48 + n) as u8]);
        assert(sb.drop_last() =~= Seq::<u8>::empty());
        assert(sb.last() == 48 + n);
        assert(digits_value(sb) == digits_value(sb.drop_last()) * 10 + n);
    } else {
        let x = decimal(n / 10);
        lemma_decimal_reads_back(n / 10);
        lemma_digit_byte((n % 10) as int);
        let c = digit_char((n % 10) as int);
        let xb = ascii_bytes(x.push(c));
        assert(xb =~= ascii_bytes(x).push(c as u8));
        assert(xb.drop_last() =~= ascii_bytes(x));
        assert(xb.last() == 48 + n % 10);
        assert(digits_value(xb) == digits_value(ascii_bytes(x)) * 10 + (n % 10));
        assert((n / 10) * 10 + n % 10 == n);
        assert(all_digits(xb)) by {
            assert forall|i: int| 0 <= i < xb.len() implies is_digit_byte(#[trigger] xb[i]) by {
                if i < xb.len() - 1 {
                    assert(xb[i] == ascii_bytes(x)[i]);
                }
            }
        }
    }
}

/// A number below `10^w` has at most `w` decimal digits.
pub proof fn lemma_decimal_len(n: nat, w: nat)
    requires
        w >= 1,
        n < pow10(w),
    ensures
        decimal(n).len() <= w,
    decreases n,
{
    if n >= 10 {
        assert(w >= 2) by {
            if w == 1 {
                assert(pow10(1) == 10) by {
                    reveal_with_fuel(pow10, 2);
                }
            }
        }
        assert(n / 10 < pow10((w - 1) as nat)) by {
            assert(pow10(w) == 10 * pow10((w - 1) as nat));
        }
        lemma_decimal_len(n / 10, (w - 1) as nat);
    }
}

proof fn lemma_zeros_value(k: int)
    ensures
        all_digits(ascii_bytes(zeros(k))),
        digits_value(ascii_bytes(zeros(k))) == 0,
    decreases k,
{
    if k > 0 {
        lemma_zeros_value(k - 1);
        assert(ascii_bytes(zeros(k)).drop_last() =~= ascii_bytes(zeros(k - 1)));
        assert(ascii_bytes(zeros(k)).last() == 48);
    } else {
        assert(ascii_bytes(zeros(k)) =~= Seq::<u8>::empty());
    }
}

/// `padded(v, w)` for `0 <= v < 10^w` is exactly `w` ASCII digits that read
/// back as `v`.
pub proof fn lemma_padded_reads_back(v: int, w: nat)
    requires
        w >= 1,
        0 <= v < pow10(w),
    ensures
        padded(v, w as int).len() == w,
        forall|k: int| 0 <= k < w ==> '0' <= #[trigger] padded(v, w as int)[k] <= '9',
        all_digits(ascii_bytes(padded(v, w as int))),
        digits_value(ascii_bytes(padded(v, w as int))) == v,
{
    let d = decimal(v as nat);
    lemma_decimal_reads_back(v as nat);
    lemma_decimal_len(v as nat, w);
    let z = zeros(w - d.len());
    lemma_zeros_value(w - d.len());
    assert(ascii_bytes(z + d) =~= ascii_bytes(z) + ascii_bytes(d));
    lemma_digits_value_concat(ascii_bytes(z), ascii_bytes(d));
    assert forall|k: int| 0 <= k < w implies '0' <= #[trigger] padded(v, w as int)[k] <= '9' by {
        if k >= z.len() {
            assert(padded(v, w as int)[k] == d[k - z.len()]);
        }
    }
}

/// `s.get(a..e)`: the bytes `a..e` of `s` when both ends are character
/// boundaries within the string.
pub open spec fn get_bytes(b: Seq<u8>, a: int, e: int) -> Option<Seq<u8>> {
    if 0 <= a <= e <= b.len() && vstd::utf8::is_char_boundary(b, a) && vstd::utf8::is_char_boundary(b, e) {
        Some(b.subrange(a, e))
    } else {
        None
    }
}

/// `s.get(a..e)?.parse::<i64>().ok()` over the bytes of `s`.
pub open spec fn field_i64(b: Seq<u8>, a: int, e: int) -> Option<int> {
    match get_bytes(b, a, e) {
        Some(x) => parse_i64_spec(x),
        None => None,
    }
}

/// `s.get(a..e)?.parse::<i64>().ok()`
pub fn get_i64(s: &str, a: usize, e: usize) -> (r: Option<i64>)
    requires
        a <= e,
    ensures
        match (r, field_i64(s.spec_bytes(), a as int, e as int)) {
            (Some(x), Some(y)) => x == y,
            (None, None) => true,
            _ => false,
        },
        r is Some ==> vstd::utf8::is_char_boundary(s.spec_bytes(), e as int),
{
    let b = s.as_bytes();
    if e <= b.len() && s.is_char_boundary(a) && s.is_char_boundary(e) {
        parse_i64_bytes(b, a, e)
    } else {
        None
    }
}

} // verus!
