//! Text helpers on `str` and `String`, each with a contract over `Seq<char>`.
use vstd::prelude::*;

verus! {

/// The character of a decimal digit.
pub open spec fn digit_char(d: nat) -> char {
    if d == 0 {
        '0'
    } else if d == 1 {
        '1'
    } else if d == 2 {
        '2'
    } else if d == 3 {
        '3'
    } else if d == 4 {
        '4'
    } else if d == 5 {
        '5'
    } else if d == 6 {
        '6'
    } else if d == 7 {
        '7'
    } else if d == 8 {
        '8'
    } else {
        '9'
    }
}

/// Decimal digits of a natural number, most significant first, without leading zeros.
pub open spec fn decimal_nat(n: nat) -> Seq<char>
    decreases n,
{
    if n < 10 {
        seq![digit_char(n)]
    } else {
        decimal_nat(n / 10).push(digit_char(n % 10))
    }
}

/// Decimal text of an integer, as Rust's `Display` writes it.
pub open spec fn decimal_int(i: int) -> Seq<char> {
    if i < 0 {
        seq!['-'] + decimal_nat((-i) as nat)
    } else {
        decimal_nat(i as nat)
    }
}

/// The number that a text of decimal digits stands for.
pub open spec fn digits_value(s: Seq<char>) -> int
    decreases s.len(),
{
    if s.len() == 0 {
        0
    } else {
        digits_value(s.drop_last()) * 10 + (s.last() as int - '0' as int)
    }
}

/// Whether a character is one of the ten decimal digits.
pub open spec fn is_digit(c: char) -> bool {
    '0' <= c <= '9'
}

/// The digit of `d` is the character `d` places after `0`.
pub proof fn law_digit_char(d: nat)
    requires
        d < 10,
    ensures
        digit_char(d) as int == '0' as int + d,
        is_digit(digit_char(d)),
{
}

/// The decimal text of a natural number is made of digits, starts with a
/// non-zero digit unless the number is zero, and reads back as the number.
pub proof fn law_decimal_nat_reads_back(n: nat)
    ensures
        decimal_nat(n).len() > 0,
        forall|i: int| 0 <= i < decimal_nat(n).len() ==> is_digit(#[trigger] decimal_nat(n)[i]),
        n > 0 ==> decimal_nat(n)[0] != '0',
        digits_value(decimal_nat(n)) == n,
    decreases n,
{
    if n < 10 {
        law_digit_char(n);
        let s = decimal_nat(n);
        assert(s.drop_last() =~= Seq::<char>::empty());
        assert(s.last() == digit_char(n));
        assert(digits_value(Seq::<char>::empty()) == 0);
        assert(digits_value(s) == digits_value(s.drop_last()) * 10 + (s.last() as int - '0' as int));
    } else {
        law_digit_char(n % 10);
        law_decimal_nat_reads_back(n / 10);
        let prev = decimal_nat(n / 10);
        let s = decimal_nat(n);
        assert(s == prev.push(digit_char(n % 10)));
        assert(s.drop_last() =~= prev);
        assert(s[0] == prev[0]);
        assert forall|i: int| 0 <= i < s.len() implies is_digit(#[trigger] s[i]) by {
            if i < prev.len() {
                assert(s[i] == prev[i]);
            }
        }
        assert(n == (n / 10) * 10 + n % 10);
        assert(s.last() == digit_char(n % 10));
        assert(digits_value(s) == digits_value(s.drop_last()) * 10 + (s.last() as int - '0' as int));
        assert(digits_value(prev) == n / 10);
    }
}

/// The decimal text of a negative integer is `-` and the text of its magnitude.
pub proof fn law_decimal_int_sign(i: int)
    ensures
        i < 0 ==> decimal_int(i)[0] == '-' && decimal_int(i).drop_first() == decimal_nat((-i) as nat),
        i >= 0 ==> decimal_int(i) == decimal_nat(i as nat),
{
    if i < 0 {
        assert((seq!['-'] + decimal_nat((-i) as nat)).drop_first() =~= decimal_nat((-i) as nat));
    }
}

fn digit_str(d: u64) -> (s: &'static str)
    requires
        d < 10,
    ensures
        s@ == seq![digit_char(d as nat)],
{
    proof {
        reveal_strlit("0");
        reveal_strlit("1");
        reveal_strlit("2");
        reveal_strlit("3");
        reveal_strlit("4");
        reveal_strlit("5");
        reveal_strlit("6");
        reveal_strlit("7");
        reveal_strlit("8");
        reveal_strlit("9");
    }
    if d == 0 {
        "0"
    } else if d == 1 {
        "1"
    } else if d == 2 {
        "2"
    } else if d == 3 {
        "3"
    } else if d == 4 {
        "4"
    } else if d == 5 {
        "5"
    } else if d == 6 {
        "6"
    } else if d == 7 {
        "7"
    } else if d == 8 {
        "8"
    } else {
        "9"
    }
}

/// Decimal text of an unsigned integer.
pub fn u64_to_decimal(n: u64) -> (s: String)
    ensures
        s@ == decimal_nat(n as nat),
    decreases n,
{
    if n < 10 {
        digit_str(n).to_owned()
    } else {
        let mut s = u64_to_decimal(n / 10);
        s.append(digit_str(n % 10));
        s
    }
}

/// Decimal text of a signed integer, with a leading `-` when it is negative.
pub fn i64_to_decimal(i: i64) -> (s: String)
    ensures
        s@ == decimal_int(i as int),
{
    if i < 0 {
        let magnitude: u64 = ((-(i + 1)) as u64) + 1;
        let mut s = "-".to_owned();
        proof {
            reveal_strlit("-");
        }
        let digits = u64_to_decimal(magnitude);
        s.append(digits.as_str());
        s
    } else {
        u64_to_decimal(i as u64)
    }
}

/// Whether two strings hold the same characters.
pub fn str_eq(a: &str, b: &str) -> (r: bool)
    ensures
        r == (a@ == b@),
{
    a.to_owned() == b.to_owned()
}

/// `a` followed by `b`.
pub fn join2(a: &str, b: &str) -> (s: String)
    ensures
        s@ == a@ + b@,
{
    let mut s = a.to_owned();
    s.append(b);
    s
}

/// `a`, `b` and `c` one after the other.
pub fn join3(a: &str, b: &str, c: &str) -> (s: String)
    ensures
        s@ == a@ + b@ + c@,
{
    let mut s = a.to_owned();
    s.append(b);
    s.append(c);
    s
}

/// Unicode `White_Space`, the characters that `char::is_whitespace` accepts.
pub open spec fn is_ws(c: char) -> bool {
    let u = c as u32;
    ||| 0x09 <= u <= 0x0d
    ||| u == 0x20
    ||| u == 0x85
    ||| u == 0xa0
    ||| u == 0x1680
    ||| 0x2000 <= u <= 0x200a
    ||| u == 0x2028
    ||| u == 0x2029
    ||| u == 0x202f
    ||| u == 0x205f
    ||| u == 0x3000
}

/// Whether `c` is white space.
pub fn is_whitespace(c: char) -> (b: bool)
    ensures
        b == is_ws(c),
{
    let u = c as u32;
    (0x09 <= u && u <= 0x0d) || u == 0x20 || u == 0x85 || u == 0xa0 || u == 0x1680 || (0x2000
        <= u && u <= 0x200a) || u == 0x2028 || u == 0x2029 || u == 0x202f || u == 0x205f || u
        == 0x3000
}

/// `s` without its leading white space.
pub open spec fn trim_start(s: Seq<char>) -> Seq<char>
    decreases s.len(),
{
    if s.len() > 0 && is_ws(s[0]) {
        trim_start(s.drop_first())
    } else {
        s
    }
}

/// `s` without its trailing white space.
pub open spec fn trim_end(s: Seq<char>) -> Seq<char>
    decreases s.len(),
{
    if s.len() > 0 && is_ws(s.last()) {
        trim_end(s.drop_last())
    } else {
        s
    }
}

/// `s` without leading and trailing white space, as `str::trim` gives it.
pub open spec fn trim(s: Seq<char>) -> Seq<char> {
    trim_end(trim_start(s))
}

proof fn lemma_trim_start_shape(s: Seq<char>)
    ensures
        trim_start(s).len() > 0 ==> !is_ws(trim_start(s)[0]),
        trim_start(s).len() <= s.len(),
        trim_start(s) =~= s.subrange(s.len() - trim_start(s).len(), s.len() as int),
    decreases s.len(),
{
    if s.len() > 0 && is_ws(s[0]) {
        lemma_trim_start_shape(s.drop_first());
    }
}

proof fn lemma_trim_end_shape(s: Seq<char>)
    ensures
        trim_end(s).len() > 0 ==> !is_ws(trim_end(s).last()),
        trim_end(s).len() <= s.len(),
        trim_end(s) =~= s.subrange(0, trim_end(s).len() as int),
        s.len() > 0 && !is_ws(s[0]) ==> trim_end(s).len() > 0,
    decreases s.len(),
{
    if s.len() > 0 && is_ws(s.last()) {
        lemma_trim_end_shape(s.drop_last());
    }
}

/// Trimming twice is trimming once: what `trim` gives has no white space at either end.
pub proof fn law_trim_idempotent(s: Seq<char>)
    ensures
        trim(trim(s)) == trim(s),
{
    let a = trim_start(s);
    lemma_trim_start_shape(s);
    let t = trim_end(a);
    lemma_trim_end_shape(a);
    if t.len() > 0 {
        assert(t[0] == a[0]);
        lemma_trim_start_shape(t);
        assert(trim_start(t) == t);
        assert(trim_end(t) == t);
    } else {
        assert(trim_start(t) == t);
        assert(trim_end(t) == t);
    }
}

/// A text with no white space at either end is its own trim.
pub proof fn law_trim_keeps_unpadded(s: Seq<char>)
    requires
        s.len() > 0,
        !is_ws(s[0]),
        !is_ws(s.last()),
    ensures
        trim(s) == s,
{
}

/// Trimming removes a space on each side of a text that has no white space at
/// either end.
pub proof fn law_trim_removes_padding(s: Seq<char>)
    requires
        s.len() > 0,
        !is_ws(s[0]),
        !is_ws(s.last()),
    ensures
        trim(seq![' '] + s + seq![' ']) == s,
{
    let p = seq![' '] + s + seq![' '];
    assert(is_ws(' '));
    assert(p.drop_first() =~= s + seq![' ']);
    let q = s + seq![' '];
    assert(q[0] == s[0]);
    assert(trim_start(p) == trim_start(q));
    assert(trim_start(q) == q);
    assert(q.drop_last() =~= s);
    assert(trim_end(q) == trim_end(s));
}

proof fn lemma_trim_start_skip(s: Seq<char>, i: int)
    requires
        0 <= i <= s.len(),
        forall|k: int| 0 <= k < i ==> is_ws(#[trigger] s[k]),
    ensures
        trim_start(s) == trim_start(s.subrange(i, s.len() as int)),
    decreases i,
{
    if i > 0 {
        lemma_trim_start_skip(s, i - 1);
        let t = s.subrange(i - 1, s.len() as int);
        assert(t[0] == s[i - 1]);
        assert(t.drop_first() =~= s.subrange(i, s.len() as int));
    } else {
        assert(s.subrange(0, s.len() as int) =~= s);
    }
}

proof fn lemma_trim_end_skip(s: Seq<char>, j: int)
    requires
        0 <= j <= s.len(),
        forall|k: int| j <= k < s.len() ==> is_ws(#[trigger] s[k]),
    ensures
        trim_end(s) == trim_end(s.subrange(0, j)),
    decreases s.len() - j,
{
    if j < s.len() {
        lemma_trim_end_skip(s, j + 1);
        let t = s.subrange(0, j + 1);
        assert(t.last() == s[j]);
        assert(t.drop_last() =~= s.subrange(0, j));
    } else {
        assert(s.subrange(0, s.len() as int) =~= s);
    }
}

/// `s` without leading and trailing white space.
pub fn trim_str(s: &str) -> (r: String)
    ensures
        r@ == trim(s@),
{
    let n = s.unicode_len();
    let mut i: usize = 0;
    while i < n && is_whitespace(s.get_char(i))
        invariant
            n == s@.len(),
            i <= n,
            forall|k: int| 0 <= k < i ==> is_ws(#[trigger] s@[k]),
        decreases n - i,
    {
        i = i + 1;
    }
    let ghost rest = s@.subrange(i as int, n as int);
    proof {
        lemma_trim_start_skip(s@, i as int);
        if i < n {
            assert(rest[0] == s@[i as int]);
        }
        assert(trim_start(rest) == rest);
    }
    let mut j: usize = n;
    while j > i && is_whitespace(s.get_char(j - 1))
        invariant
            n == s@.len(),
            i <= j <= n,
            rest == s@.subrange(i as int, n as int),
            forall|k: int| j <= k < n ==> is_ws(#[trigger] s@[k]),
        decreases j,
    {
        j = j - 1;
    }
    proof {
        assert forall|k: int| (j - i) <= k < rest.len() implies is_ws(#[trigger] rest[k]) by {
            assert(rest[k] == s@[k + i]);
        }
        lemma_trim_end_skip(rest, (j - i) as int);
        let mid = rest.subrange(0, (j - i) as int);
        assert(mid =~= s@.subrange(i as int, j as int));
        if j > i {
            assert(mid.last() == s@[j - 1]);
        }
        assert(trim_end(mid) == mid);
    }
    s.substring_char(i, j).to_owned()
}

/// The parts one after the other, with `sep` between each two neighbours.
pub open spec fn join_with(parts: Seq<Seq<char>>, sep: Seq<char>) -> Seq<char>
    decreases parts.len(),
{
    if parts.len() == 0 {
        Seq::empty()
    } else if parts.len() == 1 {
        parts[0]
    } else {
        join_with(parts.drop_last(), sep) + sep + parts.last()
    }
}

/// The views of a list of strings.
pub open spec fn strings_view(v: Seq<String>) -> Seq<Seq<char>> {
    v.map_values(|s: String| s@)
}

/// The parts one after the other, with `sep` between each two neighbours.
pub fn join_all(parts: &Vec<String>, sep: &str) -> (s: String)
    ensures
        s@ == join_with(strings_view(parts@), sep@),
{
    let ghost pv = strings_view(parts@);
    let mut s = String::new();
    let mut i: usize = 0;
    while i < parts.len()
        invariant
            pv == strings_view(parts@),
            i <= parts.len(),
            s@ == join_with(pv.subrange(0, i as int), sep@),
        decreases parts.len() - i,
    {
        proof {
            let next = pv.subrange(0, i + 1);
            assert(next.drop_last() =~= pv.subrange(0, i as int));
            assert(next.last() == parts@[i as int]@);
        }
        if i > 0 {
            s.append(sep);
        } else {
            assert(pv.subrange(0, 1) =~= seq![pv[0]]);
        }
        s.append(parts[i].as_str());
        i = i + 1;
    }
    assert(pv.subrange(0, parts.len() as int) =~= pv);
    s
}

} // verus!
