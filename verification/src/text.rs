//! Character-level building blocks shared by every module: UTF-8 byte
//! lengths, Unicode whitespace and control classes, trimming, decimal
//! rendering of integers, and the small `String` operations the rest of the
//! library is written with.

use vstd::prelude::*;

verus! {

/// Number of bytes the UTF-8 encoding of `c` takes.
pub open spec fn char_width(c: char) -> nat {
    if (c as u32) < 0x80 {
        1
    } else if (c as u32) < 0x800 {
        2
    } else if (c as u32) < 0x10000 {
        3
    } else {
        4
    }
}

/// Number of bytes the UTF-8 encoding of `s` takes (Rust's `str::len`).
pub open spec fn utf8_len(s: Seq<char>) -> nat
    decreases s.len(),
{
    if s.len() == 0 {
        0
    } else {
        char_width(s[0]) + utf8_len(s.drop_first())
    }
}

pub proof fn lemma_utf8_len_concat(a: Seq<char>, b: Seq<char>)
    ensures
        utf8_len(a + b) == utf8_len(a) + utf8_len(b),
    decreases a.len(),
{
    if a.len() == 0 {
        assert(a + b =~= b);
    } else {
        assert((a + b).drop_first() =~= a.drop_first() + b);
        lemma_utf8_len_concat(a.drop_first(), b);
    }
}

pub proof fn lemma_utf8_len_push(a: Seq<char>, c: char)
    ensures
        utf8_len(a.push(c)) == utf8_len(a) + char_width(c),
{
    assert(a.push(c) =~= a + seq![c]);
    lemma_utf8_len_concat(a, seq![c]);
    assert(seq![c].drop_first() =~= Seq::<char>::empty());
    assert(utf8_len(seq![c]) == char_width(c) + utf8_len(Seq::<char>::empty()));
}

/// Rust's `char::is_whitespace`: the Unicode `White_Space` property.
pub open spec fn is_ws(c: char) -> bool {
    let u = c as u32;
    ||| 0x09 <= u <= 0x0D
    ||| u == 0x20
    ||| u == 0x85
    ||| u == 0xA0
    ||| u == 0x1680
    ||| 0x2000 <= u <= 0x200A
    ||| u == 0x2028
    ||| u == 0x2029
    ||| u == 0x202F
    ||| u == 0x205F
    ||| u == 0x3000
}

/// Rust's `char::is_control`: the Unicode general category `Cc`.
pub open spec fn is_ctrl(c: char) -> bool {
    let u = c as u32;
    u <= 0x1F || (0x7F <= u <= 0x9F)
}

pub open spec fn is_ascii_digit(c: char) -> bool {
    '0' <= c <= '9'
}

pub open spec fn is_ascii_alnum(c: char) -> bool {
    ||| '0' <= c <= '9'
    ||| 'a' <= c <= 'z'
    ||| 'A' <= c <= 'Z'
}

/// Number of leading whitespace characters of `s`.
pub open spec fn lead_ws(s: Seq<char>) -> nat
    decreases s.len(),
{
    if s.len() > 0 && is_ws(s[0]) {
        1 + lead_ws(s.drop_first())
    } else {
        0
    }
}

/// Number of trailing whitespace characters of `s`.
pub open spec fn trail_ws(s: Seq<char>) -> nat
    decreases s.len(),
{
    if s.len() > 0 && is_ws(s.last()) {
        1 + trail_ws(s.drop_last())
    } else {
        0
    }
}

/// Rust's `str::trim_start`.
pub open spec fn trim_start(s: Seq<char>) -> Seq<char> {
    s.subrange(lead_ws(s) as int, s.len() as int)
}

/// Rust's `str::trim`: leading and trailing whitespace removed.
pub open spec fn trim(s: Seq<char>) -> Seq<char> {
    let t = trim_start(s);
    t.subrange(0, t.len() - trail_ws(t))
}

pub proof fn lemma_lead_ws(s: Seq<char>)
    ensures
        lead_ws(s) <= s.len(),
        forall|i: int| 0 <= i < lead_ws(s) ==> is_ws(#[trigger] s[i]),
        lead_ws(s) < s.len() ==> !is_ws(s[lead_ws(s) as int]),
    decreases s.len(),
{
    if s.len() > 0 && is_ws(s[0]) {
        lemma_lead_ws(s.drop_first());
        assert forall|i: int| 0 <= i < lead_ws(s) implies is_ws(#[trigger] s[i]) by {
            if i > 0 {
                assert(s[i] == s.drop_first()[i - 1]);
            }
        }
    }
}

pub proof fn lemma_trail_ws(s: Seq<char>)
    ensures
        trail_ws(s) <= s.len(),
        forall|i: int| s.len() - trail_ws(s) <= i < s.len() ==> is_ws(#[trigger] s[i]),
        trail_ws(s) < s.len() ==> !is_ws(s[s.len() - trail_ws(s) - 1]),
    decreases s.len(),
{
    if s.len() > 0 && is_ws(s.last()) {
        lemma_trail_ws(s.drop_last());
        assert forall|i: int| s.len() - trail_ws(s) <= i < s.len() implies is_ws(#[trigger] s[i]) by {
            if i < s.len() - 1 {
                assert(s[i] == s.drop_last()[i]);
            }
        }
    }
}

/// The character for a decimal digit.
pub open spec fn digit_char(d: nat) -> char {
    if d == 0 {
        '0'
    } else if d == 1 {
        '1'
    } else if d == 2 {
        '2'
    } else if d == 3 {
        '3'
    } else if d == 4 {
        '4'
    } else if d == 5 {
        '5'
    } else if d == 6 {
        '6'
    } else if d == 7 {
        '7'
    } else if d == 8 {
        '8'
    } else {
        '9'
    }
}

/// Decimal rendering of a natural number, as `Display` prints it.
pub open spec fn dec(n: nat) -> Seq<char>
    decreases n,
{
    if n < 10 {
        seq![digit_char(n)]
    } else {
        dec(n / 10).push(digit_char(n % 10))
    }
}

/// `s` contains `t` as a contiguous piece.
pub open spec fn contains_seq(s: Seq<char>, t: Seq<char>) -> bool {
    exists|i: int| 0 <= i <= s.len() - t.len() && #[trigger] s.subrange(i, i + t.len()) == t
}

pub open spec fn starts_with(s: Seq<char>, p: Seq<char>) -> bool {
    p.len() <= s.len() && s.subrange(0, p.len() as int) == p
}

/// Whether `s` ends with `p`.
pub open spec fn ends_with(s: Seq<char>, p: Seq<char>) -> bool {
    p.len() <= s.len() && s.subrange(s.len() - p.len(), s.len() as int) == p
}

/// A fresh empty `String`.
pub fn new_string() -> (s: String)
    ensures
        s@ == Seq::<char>::empty(),
{
    String::new()
}

/// An owned copy of `s`.
pub fn owned(s: &str) -> (r: String)
    ensures
        r@ == s@,
{
    s.to_owned()
}

/// Appends one character (std `String::push`).
#[verifier::external_body]
pub fn push_char(s: &mut String, c: char)
    ensures
        final(s)@ == old(s)@.push(c),
{
    s.push(c);
}

/// Appends a string slice.
pub fn push_str(s: &mut String, t: &str)
    ensures
        final(s)@ == old(s)@ + t@,
{
    s.append(t);
}

/// The characters of `s`, in order.
pub fn chars_of(s: &str) -> (v: Vec<char>)
    ensures
        v@ == s@,
{
    let n = s.unicode_len();
    let mut v: Vec<char> = Vec::new();
    let mut i: usize = 0;
    while i < n
        invariant
            n == s@.len(),
            i <= n,
            v@ == s@.subrange(0, i as int),
        decreases n - i,
    {
        v.push(s.get_char(i));
        i = i + 1;
    }
    assert(v@ =~= s@);
    v
}

/// A `String` made of the characters of `v[from..to]`.
pub fn string_from_chars(v: &Vec<char>, from: usize, to: usize) -> (s: String)
    requires
        from <= to <= v.len(),
    ensures
        s@ == v@.subrange(from as int, to as int),
{
    let mut s = String::new();
    let mut i = from;
    while i < to
        invariant
            from <= i <= to <= v.len(),
            s@ == v@.subrange(from as int, i as int),
        decreases to - i,
    {
        push_char(&mut s, v[i]);
        assert(v@.subrange(from as int, i + 1) =~= v@.subrange(from as int, i as int).push(v@[i as int]));
        i = i + 1;
    }
    s
}

/// Width in bytes of the UTF-8 encoding of `c`.
pub fn char_byte_width(c: char) -> (w: usize)
    ensures
        w == char_width(c),
{
    if (c as u32) < 0x80 {
        1
    } else if (c as u32) < 0x800 {
        2
    } else if (c as u32) < 0x10000 {
        3
    } else {
        4
    }
}

/// Byte length of the UTF-8 encoding of the characters `v`, or `cap` if
/// that length exceeds `cap`.
pub fn utf8_len_capped(v: &Vec<char>, cap: usize) -> (n: usize)
    ensures
        n == if utf8_len(v@) < cap { utf8_len(v@) } else { cap as nat },
{
    let mut n: usize = 0;
    let mut i: usize = v.len();
    while i > 0
        invariant
            i <= v.len(),
            n == if utf8_len(v@.subrange(i as int, v.len() as int)) < cap {
                utf8_len(v@.subrange(i as int, v.len() as int))
            } else {
                cap as nat
            },
        decreases i,
    {
        i = i - 1;
        assert(v@.subrange(i as int, v.len() as int).drop_first() =~= v@.subrange(i + 1, v.len() as int));
        let w = char_byte_width(v[i]);
        if n < cap {
            if w <= cap - n {
                n = n + w;
            } else {
                n = cap;
            }
        }
    }
    assert(v@.subrange(0, v.len() as int) =~= v@);
    n
}

/// Byte length of `s`, or `cap` if that length exceeds `cap`.
pub fn byte_len_capped(s: &str, cap: usize) -> (n: usize)
    ensures
        n == if utf8_len(s@) < cap { utf8_len(s@) } else { cap as nat },
{
    let v = chars_of(s);
    utf8_len_capped(&v, cap)
}

/// Rust's `char::is_whitespace`.
pub fn char_is_ws(c: char) -> (b: bool)
    ensures
        b == is_ws(c),
{
    let u = c as u32;
    (0x09 <= u && u <= 0x0D) || u == 0x20 || u == 0x85 || u == 0xA0 || u == 0x1680 || (0x2000
        <= u && u <= 0x200A) || u == 0x2028 || u == 0x2029 || u == 0x202F || u == 0x205F || u
        == 0x3000
}

/// Rust's `char::is_control`.
pub fn char_is_ctrl(c: char) -> (b: bool)
    ensures
        b == is_ctrl(c),
{
    let u = c as u32;
    u <= 0x1F || (0x7F <= u && u <= 0x9F)
}

pub proof fn lemma_lead_ws_unique(s: Seq<char>, k: int)
    requires
        0 <= k <= s.len(),
        forall|j: int| 0 <= j < k ==> is_ws(#[trigger] s[j]),
        k == s.len() || !is_ws(s[k]),
    ensures
        lead_ws(s) == k,
{
    lemma_lead_ws(s);
    if lead_ws(s) < k {
        assert(is_ws(s[lead_ws(s) as int]));
    } else if lead_ws(s) > k {
        assert(is_ws(s[k]));
    }
}

pub proof fn lemma_trail_ws_unique(s: Seq<char>, k: int)
    requires
        0 <= k <= s.len(),
        forall|j: int| s.len() - k <= j < s.len() ==> is_ws(#[trigger] s[j]),
        k == s.len() || !is_ws(s[s.len() - k - 1]),
    ensures
        trail_ws(s) == k,
{
    lemma_trail_ws(s);
    if trail_ws(s) < k {
        assert(is_ws(s[s.len() - trail_ws(s) - 1]));
    } else if trail_ws(s) > k {
        assert(is_ws(s[s.len() - k - 1]));
    }
}

/// Number of leading whitespace characters of `v[from..]`.
fn count_lead_ws(v: &Vec<char>) -> (k: usize)
    ensures
        k == lead_ws(v@),
{
    let mut i: usize = 0;
    while i < v.len() && char_is_ws(v[i])
        invariant
            i <= v.len(),
            forall|j: int| 0 <= j < i ==> is_ws(#[trigger] v@[j]),
        decreases v.len() - i,
    {
        i = i + 1;
    }
    proof {
        lemma_lead_ws_unique(v@, i as int);
    }
    i
}

/// `s` with leading and trailing whitespace removed (Rust's `str::trim`).
pub fn trim_str(s: &str) -> (r: String)
    ensures
        r@ == trim(s@),
{
    let v = chars_of(s);
    let a = count_lead_ws(&v);
    proof {
        lemma_lead_ws(v@);
    }
    let ghost t = trim_start(v@);
    let mut b: usize = v.len();
    while b > a && char_is_ws(v[b - 1])
        invariant
            a <= b <= v.len(),
            t == v@.subrange(a as int, v.len() as int),
            forall|j: int| b <= j < v.len() ==> is_ws(#[trigger] v@[j]),
        decreases b,
    {
        b = b - 1;
    }
    proof {
        let k = v.len() - b;
        assert forall|j: int| t.len() - k <= j < t.len() implies is_ws(#[trigger] t[j]) by {
            assert(t[j] == v@[a + j]);
        }
        if k < t.len() {
            assert(t[t.len() - k - 1] == v@[b - 1]);
        }
        lemma_trail_ws_unique(t, k as int);
    }
    let r = string_from_chars(&v, a, b);
    assert(r@ =~= trim(s@));
    r
}

/// Whether `s` consists of whitespace only (`s.trim().is_empty()`).
pub fn is_blank(s: &str) -> (b: bool)
    ensures
        b == (trim(s@).len() == 0),
{
    let t = trim_str(s);
    t.as_str().unicode_len() == 0
}

/// `s` without its last character (what `String::pop` leaves).
pub fn without_last(s: &String) -> (r: String)
    ensures
        r@ == if s@.len() > 0 { s@.drop_last() } else { s@ },
{
    let v = chars_of(s.as_str());
    if v.len() == 0 {
        new_string()
    } else {
        let r = string_from_chars(&v, 0, v.len() - 1);
        assert(r@ =~= s@.drop_last());
        r
    }
}

/// Whether two strings are equal.
pub fn str_eq(a: &str, b: &str) -> (r: bool)
    ensures
        r == (a@ == b@),
{
    let va = chars_of(a);
    let vb = chars_of(b);
    if va.len() != vb.len() {
        return false;
    }
    let mut i: usize = 0;
    while i < va.len()
        invariant
            va@ == a@,
            vb@ == b@,
            va.len() == vb.len(),
            i <= va.len(),
            forall|j: int| 0 <= j < i ==> va@[j] == vb@[j],
        decreases va.len() - i,
    {
        if va[i] != vb[i] {
            return false;
        }
        i = i + 1;
    }
    assert(va@ =~= vb@);
    true
}

/// The character of a decimal digit.
pub fn digit(d: u64) -> (c: char)
    requires
        d < 10,
    ensures
        c == digit_char(d as nat),
{
    if d == 0 {
        '0'
    } else if d == 1 {
        '1'
    } else if d == 2 {
        '2'
    } else if d == 3 {
        '3'
    } else if d == 4 {
        '4'
    } else if d == 5 {
        '5'
    } else if d == 6 {
        '6'
    } else if d == 7 {
        '7'
    } else if d == 8 {
        '8'
    } else {
        '9'
    }
}

/// Appends the decimal rendering of `n`.
pub fn push_dec(s: &mut String, n: u64)
    ensures
        final(s)@ == old(s)@ + dec(n as nat),
    decreases n,
{
    if n < 10 {
        push_char(s, digit(n));
        assert(old(s)@.push(digit_char(n as nat)) =~= old(s)@ + dec(n as nat));
    } else {
        push_dec(s, n / 10);
        push_char(s, digit(n % 10));
        assert(old(s)@ + dec(n as nat) =~= old(s)@ + dec((n / 10) as nat) + seq![digit_char((n % 10) as nat)]);
    }
}

/// The decimal rendering of `n` (`n.to_string()`).
pub fn dec_string(n: u64) -> (s: String)
    ensures
        s@ == dec(n as nat),
{
    let mut s = new_string();
    push_dec(&mut s, n);
    assert(s@ =~= dec(n as nat));
    s
}

/// Byte length of the first `k` characters of `s`.
pub open spec fn prefix_bytes(s: Seq<char>, k: int) -> nat {
    utf8_len(s.subrange(0, k))
}

pub proof fn lemma_prefix_bytes_step(s: Seq<char>, k: int)
    requires
        0 <= k < s.len(),
    ensures
        prefix_bytes(s, k + 1) == prefix_bytes(s, k) + char_width(s[k]),
{
    assert(s.subrange(0, k + 1) =~= s.subrange(0, k).push(s[k]));
    lemma_utf8_len_push(s.subrange(0, k), s[k]);
}

/// Byte lengths of prefixes grow strictly with the number of characters.
pub proof fn lemma_prefix_bytes_strict(s: Seq<char>, j: int, k: int)
    requires
        0 <= j < k <= s.len(),
    ensures
        prefix_bytes(s, j) < prefix_bytes(s, k),
    decreases k - j,
{
    lemma_prefix_bytes_step(s, k - 1);
    if j < k - 1 {
        lemma_prefix_bytes_strict(s, j, k - 1);
    }
}

/// The prefix of `s` that is exactly `b` bytes long, or all of `s` when no
/// character boundary falls at byte `b` (Rust's `s.get(..b).unwrap_or(s)`).
pub open spec fn byte_prefix(s: Seq<char>, b: nat) -> Seq<char> {
    if exists|k: int| 0 <= k <= s.len() && #[trigger] prefix_bytes(s, k) == b {
        s.subrange(0, choose|k: int| 0 <= k <= s.len() && #[trigger] prefix_bytes(s, k) == b)
    } else {
        s
    }
}

/// The largest number of leading characters of `v` whose encoding fits in
/// `limit` bytes (Rust's `str::floor_char_boundary`, counted in characters).
pub fn floor_char_boundary(v: &Vec<char>, limit: usize) -> (k: usize)
    ensures
        k <= v.len(),
        prefix_bytes(v@, k as int) <= limit,
        k < v.len() ==> prefix_bytes(v@, k + 1) > limit,
{
    let mut k: usize = 0;
    let mut acc: usize = 0;
    assert(v@.subrange(0, 0) =~= Seq::<char>::empty());
    while k < v.len() && char_byte_width(v[k]) <= limit - acc
        invariant
            k <= v.len(),
            acc == prefix_bytes(v@, k as int),
            acc <= limit,
        decreases v.len() - k,
    {
        proof {
            lemma_prefix_bytes_step(v@, k as int);
        }
        acc = acc + char_byte_width(v[k]);
        k = k + 1;
    }
    proof {
        if k < v.len() {
            lemma_prefix_bytes_step(v@, k as int);
        }
    }
    k
}

/// The characters of `v` that make up its first `b` bytes, when a character
/// boundary falls there.
pub fn byte_prefix_chars(v: &Vec<char>, b: usize) -> (r: Option<usize>)
    ensures
        match r {
            Some(k) => k <= v.len() && prefix_bytes(v@, k as int) == b && byte_prefix(v@, b as nat)
                == v@.subrange(0, k as int),
            None => !(exists|k: int| 0 <= k <= v@.len() && #[trigger] prefix_bytes(v@, k) == b)
                && byte_prefix(v@, b as nat) == v@,
        },
{
    let k = floor_char_boundary(v, b);
    let total_fits = k == v.len();
    let mut acc: usize = 0;
    let mut i: usize = 0;
    assert(v@.subrange(0, 0) =~= Seq::<char>::empty());
    while i < k
        invariant
            k <= v.len(),
            i <= k,
            prefix_bytes(v@, k as int) <= b,
            acc == prefix_bytes(v@, i as int),
            acc <= prefix_bytes(v@, k as int),
        decreases k - i,
    {
        proof {
            lemma_prefix_bytes_step(v@, i as int);
            if i + 1 < k {
                lemma_prefix_bytes_strict(v@, i + 1, k as int);
            }
        }
        acc = acc + char_byte_width(v[i]);
        i = i + 1;
    }
    if acc == b {
        proof {
            let w = choose|j: int| 0 <= j <= v@.len() && #[trigger] prefix_bytes(v@, j) == b;
            if w < k {
                lemma_prefix_bytes_strict(v@, w, k as int);
            } else if w > k {
                lemma_prefix_bytes_strict(v@, k as int, w);
            }
        }
        Some(k)
    } else {
        proof {
            assert forall|j: int| 0 <= j <= v@.len() implies #[trigger] prefix_bytes(v@, j) != b by {
                if j < k {
                    lemma_prefix_bytes_strict(v@, j, k as int);
                } else if j > k {
                    if j > k + 1 {
                        lemma_prefix_bytes_strict(v@, k + 1, j);
                    }
                }
            }
        }
        None
    }
}

/// `10` to the power `k`.
pub open spec fn pow10(k: nat) -> nat
    decreases k,
{
    if k == 0 {
        1
    } else {
        10 * pow10((k - 1) as nat)
    }
}

proof fn lemma_dec_len_below(n: nat, k: nat)
    requires
        n < pow10(k),
        k >= 1,
    ensures
        utf8_len(dec(n)) <= k,
    decreases n,
{
    if n < 10 {
        lemma_utf8_len_push(Seq::<char>::empty(), digit_char(n));
        assert(Seq::<char>::empty().push(digit_char(n)) =~= seq![digit_char(n)]);
    } else {
        let k1 = (k - 1) as nat;
        assert(pow10(k) == 10 * pow10(k1));
        assert(k1 >= 1) by {
            if k1 == 0 {
                assert(pow10(0) == 1);
            }
        }
        assert(n / 10 < pow10(k1)) by (nonlinear_arith)
            requires
                n < 10 * pow10(k1),
        ;
        lemma_dec_len_below(n / 10, k1);
        lemma_utf8_len_push(dec(n / 10), digit_char(n % 10));
    }
}

/// The decimal rendering of a 64-bit number takes at most 20 bytes.
pub proof fn lemma_dec_utf8_len(n: nat)
    requires
        n <= u64::MAX,
    ensures
        utf8_len(dec(n)) <= 20,
{
    assert(pow10(20) == 100_000_000_000_000_000_000) by {
        reveal_with_fuel(pow10, 21);
    }
    lemma_dec_len_below(n, 20);
}

/// The pieces of `s` between occurrences of `sep` (Rust's `str::split`
/// with a `char`): always at least one piece, empty pieces kept.
pub open spec fn split_on(s: Seq<char>, sep: char) -> Seq<Seq<char>>
    decreases s.len(),
{
    if s.len() == 0 {
        seq![Seq::empty()]
    } else {
        let prev = split_on(s.drop_last(), sep);
        if s.last() == sep {
            prev.push(Seq::empty())
        } else {
            prev.update(prev.len() - 1, prev.last().push(s.last()))
        }
    }
}

pub proof fn lemma_split_on_nonempty(s: Seq<char>, sep: char)
    ensures
        split_on(s, sep).len() >= 1,
    decreases s.len(),
{
    if s.len() > 0 {
        lemma_split_on_nonempty(s.drop_last(), sep);
    }
}

/// Splits `s` at every `sep`.
pub fn split_chars(s: &str, sep: char) -> (r: Vec<String>)
    ensures
        r@.map_values(|x: String| x@) == split_on(s@, sep),
{
    let v = chars_of(s);
    let mut out: Vec<String> = Vec::new();
    let mut cur = new_string();
    let mut i: usize = 0;
    while i < v.len()
        invariant
            i <= v.len(),
            v@ == s@,
            out@.map_values(|x: String| x@).push(cur@) == split_on(v@.subrange(0, i as int), sep),
        decreases v.len() - i,
    {
        let c = v[i];
        let ghost pre = v@.subrange(0, i as int);
        proof {
            lemma_split_on_nonempty(pre, sep);
        }
        assert(v@.subrange(0, i + 1).drop_last() =~= pre);
        let ghost out0 = out@.map_values(|x: String| x@);
        let ghost cur0 = cur@;
        if c == sep {
            out.push(cur);
            cur = new_string();
            assert(out@.map_values(|x: String| x@) =~= out0.push(cur0));
        } else {
            push_char(&mut cur, c);
            assert(out0.push(cur0).update(out0.len() as int, cur0.push(c)) =~= out0.push(cur@));
        }
        i = i + 1;
    }
    assert(v@.subrange(0, v.len() as int) =~= v@);
    let ghost out0 = out@.map_values(|x: String| x@);
    let ghost cur0 = cur@;
    out.push(cur);
    assert(out@.map_values(|x: String| x@) =~= out0.push(cur0));
    out
}

/// The words of `s`: its maximal runs of non-whitespace characters (Rust's
/// `str::split_whitespace`).
pub open spec fn ws_words(s: Seq<char>) -> Seq<Seq<char>>
    decreases s.len(),
{
    if s.len() == 0 {
        Seq::empty()
    } else {
        let prev = ws_words(s.drop_last());
        let c = s.last();
        if is_ws(c) {
            prev
        } else if s.len() >= 2 && !is_ws(s[s.len() - 2]) {
            prev.update(prev.len() - 1, prev.last().push(c))
        } else {
            prev.push(seq![c])
        }
    }
}

/// `w` is one word: non-empty, with no whitespace.
pub open spec fn is_word(w: Seq<char>) -> bool {
    w.len() > 0 && forall|i: int| 0 <= i < w.len() ==> !is_ws(#[trigger] w[i])
}

/// A word's only word is itself.
pub proof fn lemma_ws_words_of_word(w: Seq<char>)
    requires
        is_word(w),
    ensures
        ws_words(w) == seq![w],
    decreases w.len(),
{
    let w0 = w.drop_last();
    if w.len() == 1 {
        assert(ws_words(w0) == Seq::<Seq<char>>::empty());
        assert(seq![w.last()] =~= w);
    } else {
        assert(is_word(w0)) by {
            assert forall|i: int| 0 <= i < w0.len() implies !is_ws(#[trigger] w0[i]) by {
                assert(w0[i] == w[i]);
            }
        }
        lemma_ws_words_of_word(w0);
        assert(w0.push(w.last()) =~= w);
        assert(!is_ws(w[w.len() - 2]));
        assert(w0.last() == w[w.len() - 2]);
    }
}

/// A space followed by a word adds that word to the words of `s`.
pub proof fn lemma_ws_words_then_word(s: Seq<char>, w: Seq<char>)
    requires
        is_word(w),
    ensures
        ws_words(s + seq![' '] + w) == ws_words(s).push(w),
    decreases w.len(),
{
    let sp = s + seq![' '];
    let t = sp + w;
    let w0 = w.drop_last();
    assert(is_ws(' '));
    assert(sp.drop_last() =~= s);
    assert(ws_words(sp) == ws_words(s));
    assert(t.drop_last() =~= sp + w0);
    assert(t.last() == w.last());
    if w.len() == 1 {
        assert(sp + w0 =~= sp);
        assert(t[t.len() - 2] == ' ');
        assert(seq![w.last()] =~= w);
    } else {
        assert(is_word(w0)) by {
            assert forall|i: int| 0 <= i < w0.len() implies !is_ws(#[trigger] w0[i]) by {
                assert(w0[i] == w[i]);
            }
        }
        lemma_ws_words_then_word(s, w0);
        assert(t[t.len() - 2] == w[w.len() - 2]);
        assert(!is_ws(w[w.len() - 2]));
        assert(ws_words(s).push(w0).last() == w0);
        assert(w0.push(w.last()) =~= w);
        assert(ws_words(s).push(w0).update(ws_words(s).len() as int, w0.push(w.last())) =~= ws_words(s).push(w));
    }
}

/// Text that neither starts nor ends with whitespace is its own trim.
pub proof fn lemma_trim_unpadded(w: Seq<char>)
    requires
        w.len() > 0,
        !is_ws(w[0]),
        !is_ws(w.last()),
    ensures
        trim(w) == w,
{
    assert(lead_ws(w) == 0);
    assert(trim_start(w) =~= w);
    assert(trail_ws(w) == 0);
    assert(w.subrange(0, w.len() as int) =~= w);
}

/// Splitting `a + b`, where `b` holds no `sep`, lengthens the last piece
/// of `a` by `b`.
pub proof fn lemma_split_on_append(a: Seq<char>, b: Seq<char>, sep: char)
    requires
        forall|i: int| 0 <= i < b.len() ==> b[i] != sep,
    ensures
        split_on(a + b, sep) == split_on(a, sep).update(
            split_on(a, sep).len() - 1,
            split_on(a, sep).last() + b,
        ),
    decreases b.len(),
{
    let s = split_on(a, sep);
    lemma_split_on_nonempty(a, sep);
    if b.len() == 0 {
        assert(a + b =~= a);
        assert(s.last() + b =~= s.last());
        assert(s.update(s.len() - 1, s.last()) =~= s);
    } else {
        let b0 = b.drop_last();
        lemma_split_on_append(a, b0, sep);
        assert((a + b).drop_last() =~= a + b0);
        assert((a + b).last() == b.last());
        assert(b.last() == b[b.len() - 1]);
        assert((s.last() + b0).push(b.last()) =~= s.last() + b);
        assert(s.update(s.len() - 1, s.last() + b0).update(s.len() - 1, s.last() + b) =~= s.update(
            s.len() - 1,
            s.last() + b,
        ));
    }
}

/// A separator closes the last piece and opens an empty one.
pub proof fn lemma_split_on_push_sep(a: Seq<char>, sep: char)
    ensures
        split_on(a.push(sep), sep) == split_on(a, sep).push(Seq::empty()),
{
    assert(a.push(sep).drop_last() =~= a);
}

/// The words of `s`.
pub fn split_words(s: &str) -> (r: Vec<String>)
    ensures
        r@.map_values(|x: String| x@) == ws_words(s@),
{
    let v = chars_of(s);
    let mut out: Vec<String> = Vec::new();
    let mut cur = new_string();
    let mut in_word = false;
    let mut i: usize = 0;
    while i < v.len()
        invariant
            i <= v.len(),
            v@ == s@,
            in_word == (i > 0 && !is_ws(v@[i - 1])),
            !in_word ==> out@.map_values(|x: String| x@) == ws_words(v@.subrange(0, i as int)) && cur@
                == Seq::<char>::empty(),
            in_word ==> out@.map_values(|x: String| x@).push(cur@) == ws_words(v@.subrange(0, i as int)),
        decreases v.len() - i,
    {
        let c = v[i];
        let ghost pre = v@.subrange(0, i as int);
        let ghost out0 = out@.map_values(|x: String| x@);
        let ghost cur0 = cur@;
        assert(v@.subrange(0, i + 1).drop_last() =~= pre);
        assert(v@.subrange(0, i + 1).last() == c);
        if char_is_ws(c) {
            if in_word {
                out.push(cur);
                cur = new_string();
                assert(out@.map_values(|x: String| x@) =~= out0.push(cur0));
            }
            in_word = false;
        } else {
            if in_word {
                assert(pre.last() == v@[i - 1]);
                push_char(&mut cur, c);
                assert(out0.push(cur0).update(out0.len() as int, cur0.push(c)) =~= out0.push(cur@));
            } else {
                push_char(&mut cur, c);
                assert(cur@ =~= seq![c]);
            }
            in_word = true;
        }
        i = i + 1;
    }
    assert(v@.subrange(0, v.len() as int) =~= v@);
    if in_word {
        let ghost out0 = out@.map_values(|x: String| x@);
        let ghost cur0 = cur@;
        out.push(cur);
        assert(out@.map_values(|x: String| x@) =~= out0.push(cur0));
    }
    out
}

/// `sep` occurs in `s` at index `i`.
pub open spec fn occurs_at(s: Seq<char>, sep: Seq<char>, i: int) -> bool {
    0 <= i && i + sep.len() <= s.len() && s.subrange(i, i + sep.len()) == sep
}

/// Index of the first occurrence of `sep` in `s`.
pub open spec fn first_occurrence(s: Seq<char>, sep: Seq<char>) -> int {
    choose|i: int| #[trigger] occurs_at(s, sep, i) && forall|j: int| 0 <= j < i ==> !occurs_at(s, sep, j)
}

/// The pieces of `s` between the occurrences of the non-empty `sep`,
/// taken from left to right (Rust's `str::split` with a string pattern).
#[verifier::opaque]
pub open spec fn split_str(s: Seq<char>, sep: Seq<char>) -> Seq<Seq<char>>
    decreases s.len(),
{
    if sep.len() > 0 && exists|i: int| #[trigger] occurs_at(s, sep, i) {
        let i = first_occurrence(s, sep);
        if 0 <= i && i + sep.len() <= s.len() {
            seq![s.subrange(0, i)] + split_str(s.subrange(i + sep.len(), s.len() as int), sep)
        } else {
            seq![s]
        }
    } else {
        seq![s]
    }
}

/// The first occurrence is at `i` when `sep` occurs there and nowhere
/// before.
pub proof fn lemma_first_occurrence(s: Seq<char>, sep: Seq<char>, i: int)
    requires
        occurs_at(s, sep, i),
        forall|j: int| 0 <= j < i ==> !occurs_at(s, sep, j),
    ensures
        first_occurrence(s, sep) == i,
{
    let k = first_occurrence(s, sep);
    assert(occurs_at(s, sep, k) && forall|j: int| 0 <= j < k ==> !occurs_at(s, sep, j));
    if k < i {
        assert(!occurs_at(s, sep, k));
    } else if k > i {
        assert(!occurs_at(s, sep, i));
    }
}

/// An occurrence in `v[start..]` is one in `v`, shifted by `start`.
proof fn lemma_occurs_shift(v: Seq<char>, w: Seq<char>, start: int, j: int)
    requires
        0 <= start <= v.len(),
        0 <= j,
    ensures
        occurs_at(v.subrange(start, v.len() as int), w, j) == occurs_at(v, w, start + j),
{
    let rest = v.subrange(start, v.len() as int);
    if j + w.len() <= rest.len() {
        assert(rest.subrange(j, j + w.len()) =~= v.subrange(start + j, start + j + w.len()));
    }
}

/// Splitting `v[start..]` where the first occurrence is at `i`.
proof fn lemma_split_advance(v: Seq<char>, w: Seq<char>, start: int, i: int)
    requires
        w.len() > 0,
        0 <= start <= i,
        occurs_at(v, w, i),
        forall|j: int| start <= j < i ==> !occurs_at(v, w, j),
    ensures
        split_str(v.subrange(start, v.len() as int), w) == seq![v.subrange(start, i)] + split_str(
            v.subrange(i + w.len(), v.len() as int),
            w,
        ),
{
    reveal(split_str);
    let rest = v.subrange(start, v.len() as int);
    let k = i - start;
    lemma_occurs_shift(v, w, start, k);
    assert forall|j: int| 0 <= j < k implies !occurs_at(rest, w, j) by {
        lemma_occurs_shift(v, w, start, j);
    }
    lemma_first_occurrence(rest, w, k);
    assert(rest.subrange(k + w.len(), rest.len() as int) =~= v.subrange(i + w.len(), v.len() as int));
    assert(rest.subrange(0, k) =~= v.subrange(start, i));
}

/// Splitting `v[start..]` where `w` no longer occurs.
proof fn lemma_split_end(v: Seq<char>, w: Seq<char>, start: int)
    requires
        0 <= start <= v.len(),
        forall|j: int| start <= j ==> !occurs_at(v, w, j),
    ensures
        split_str(v.subrange(start, v.len() as int), w) == seq![v.subrange(start, v.len() as int)],
{
    reveal(split_str);
    let rest = v.subrange(start, v.len() as int);
    assert forall|j: int| #[trigger] occurs_at(rest, w, j) implies false by {
        if j >= 0 {
            lemma_occurs_shift(v, w, start, j);
        }
    }
}

/// Whether `sep` occurs in `v` at index `i`.
fn occurs_at_exec(v: &Vec<char>, sep: &Vec<char>, i: usize) -> (r: bool)
    ensures
        r == occurs_at(v@, sep@, i as int),
{
    if i > v.len() || sep.len() > v.len() - i {
        return false;
    }
    let mut k: usize = 0;
    while k < sep.len()
        invariant
            k <= sep.len(),
            i + sep.len() <= v.len(),
            forall|m: int| 0 <= m < k ==> v@[i + m] == sep@[m],
        decreases sep.len() - k,
    {
        if v[i + k] != sep[k] {
            assert(v@.subrange(i as int, i + sep.len())[k as int] != sep@[k as int]);
            return false;
        }
        k = k + 1;
    }
    assert(v@.subrange(i as int, i + sep.len()) =~= sep@);
    true
}

/// Splits `s` at every occurrence of the non-empty `sep`.
pub fn split_str_exec(s: &str, sep: &str) -> (r: Vec<String>)
    requires
        sep@.len() > 0,
    ensures
        r@.map_values(|x: String| x@) == split_str(s@, sep@),
{
    let v = chars_of(s);
    let w = chars_of(sep);
    let mut out: Vec<String> = Vec::new();
    let mut start: usize = 0;
    let mut i: usize = 0;
    assert(v@.subrange(0, v.len() as int) =~= v@);
    while i < v.len()
        invariant
            v@ == s@,
            w@ == sep@,
            w.len() > 0,
            start <= i <= v.len(),
            out@.map_values(|x: String| x@) + split_str(v@.subrange(start as int, v.len() as int), w@)
                == split_str(v@, w@),
            forall|j: int| start <= j < i ==> !occurs_at(v@, w@, j),
        decreases v.len() - i,
    {
        if occurs_at_exec(&v, &w, i) {
            proof {
                lemma_split_advance(v@, w@, start as int, i as int);
            }
            let piece = string_from_chars(&v, start, i);
            let ghost out0 = out@.map_values(|x: String| x@);
            let ghost tail = split_str(v@.subrange(i + w.len(), v.len() as int), w@);
            out.push(piece);
            assert(out@.map_values(|x: String| x@) =~= out0.push(v@.subrange(start as int, i as int)));
            assert(out0.push(v@.subrange(start as int, i as int)) + tail =~= out0 + (seq![
                v@.subrange(start as int, i as int),
            ] + tail));
            start = i + w.len();
            i = start;
        } else {
            i = i + 1;
        }
    }
    proof {
        lemma_split_end(v@, w@, start as int);
    }
    let ghost rest = v@.subrange(start as int, v.len() as int);
    let piece = string_from_chars(&v, start, v.len());
    let ghost out0 = out@.map_values(|x: String| x@);
    out.push(piece);
    assert(out@.map_values(|x: String| x@) =~= out0.push(rest));
    assert(out0.push(rest) =~= out0 + seq![rest]);
    out
}

/// `s` without the prefix `p`, if it starts with it (Rust's
/// `str::strip_prefix`).
pub fn strip_prefix_str(s: &str, p: &str) -> (r: Option<String>)
    ensures
        match r {
            Some(rest) => starts_with(s@, p@) && rest@ == s@.subrange(p@.len() as int, s@.len() as int),
            None => !starts_with(s@, p@),
        },
{
    let v = chars_of(s);
    let w = chars_of(p);
    if w.len() > v.len() {
        return None;
    }
    let mut i: usize = 0;
    while i < w.len()
        invariant
            v@ == s@,
            w@ == p@,
            w.len() <= v.len(),
            i <= w.len(),
            forall|k: int| 0 <= k < i ==> v@[k] == w@[k],
        decreases w.len() - i,
    {
        if v[i] != w[i] {
            assert(v@.subrange(0, w.len() as int)[i as int] != w@[i as int]);
            return None;
        }
        i = i + 1;
    }
    assert(v@.subrange(0, w.len() as int) =~= w@);
    Some(string_from_chars(&v, w.len(), v.len()))
}

/// `s` without the suffix `p`, if it ends with it (Rust's
/// `str::strip_suffix`).
pub fn strip_suffix_str(s: &str, p: &str) -> (r: Option<String>)
    ensures
        match r {
            Some(rest) => ends_with(s@, p@) && rest@ == s@.subrange(0, s@.len() - p@.len()),
            None => !ends_with(s@, p@),
        },
{
    let v = chars_of(s);
    let w = chars_of(p);
    if w.len() > v.len() {
        return None;
    }
    let off = v.len() - w.len();
    let mut i: usize = 0;
    while i < w.len()
        invariant
            v@ == s@,
            w@ == p@,
            w.len() <= v.len(),
            off == v.len() - w.len(),
            i <= w.len(),
            forall|k: int| 0 <= k < i ==> v@[off + k] == w@[k],
        decreases w.len() - i,
    {
        if v[off + i] != w[i] {
            assert(v@.subrange(off as int, v.len() as int)[i as int] != w@[i as int]);
            return None;
        }
        i = i + 1;
    }
    assert(v@.subrange(off as int, v.len() as int) =~= w@);
    Some(string_from_chars(&v, 0, off))
}

/// The value of a string of decimal digits.
pub open spec fn digits_value(d: Seq<char>) -> nat
    decreases d.len(),
{
    if d.len() == 0 {
        0
    } else {
        (digits_value(d.drop_last()) * 10 + (d.last() as int - '0' as int)) as nat
    }
}

/// `s` without a leading `+`.
pub open spec fn port_digits(s: Seq<char>) -> Seq<char> {
    if s.len() > 0 && s[0] == '+' {
        s.drop_first()
    } else {
        s
    }
}

/// A prefix of digits is worth no more than the whole.
pub proof fn lemma_digits_value_grows(d: Seq<char>, k: int)
    requires
        0 <= k <= d.len(),
        forall|i: int| 0 <= i < d.len() ==> crate::text::is_ascii_digit(#[trigger] d[i]),
    ensures
        digits_value(d.subrange(0, k)) <= digits_value(d),
    decreases d.len() - k,
{
    if k < d.len() {
        lemma_digits_value_grows(d, k + 1);
        assert(d.subrange(0, k + 1).drop_last() =~= d.subrange(0, k));
    } else {
        assert(d.subrange(0, k) =~= d);
    }
}


/// What `s.parse::<u64>()` accepts: an optional `+`, then one or more
/// ASCII digits whose value fits in 64 bits.
pub open spec fn parse_u64_of(s: Seq<char>) -> Option<u64> {
    let d = port_digits(s);
    if d.len() > 0 && (forall|i: int| 0 <= i < d.len() ==> is_ascii_digit(#[trigger] d[i]))
        && digits_value(d) <= u64::MAX {
        Some(digits_value(d) as u64)
    } else {
        None
    }
}

/// Rust's `s.parse::<u64>()`.
pub fn parse_u64(s: &str) -> (r: Option<u64>)
    ensures
        r == parse_u64_of(s@),
{
    let v = chars_of(s);
    let start: usize = if v.len() > 0 && v[0] == '+' {
        1
    } else {
        0
    };
    let ghost d = port_digits(s@);
    assert(d =~= v@.subrange(start as int, v@.len() as int));
    if start >= v.len() {
        return None;
    }
    let mut val: u128 = 0;
    let mut i: usize = start;
    while i < v.len()
        invariant
            start <= i <= v.len(),
            v@ == s@,
            d == port_digits(s@),
            d.len() > 0,
            d == v@.subrange(start as int, v@.len() as int),
            val == digits_value(v@.subrange(start as int, i as int)),
            val <= u64::MAX,
            forall|k: int| start <= k < i ==> is_ascii_digit(#[trigger] v@[k]),
        decreases v.len() - i,
    {
        let c = v[i];
        if !('0' <= c && c <= '9') {
            assert(!is_ascii_digit(d[i - start]));
            return None;
        }
        let digit = (c as u128) - ('0' as u128);
        assert(v@.subrange(start as int, i + 1).drop_last() =~= v@.subrange(start as int, i as int));
        let nv = val * 10 + digit;
        assert(digits_value(v@.subrange(start as int, i + 1)) == nv);
        if nv > u64::MAX as u128 {
            proof {
                assert forall|k: int| 0 <= k < (i + 1 - start) implies is_ascii_digit(
                    #[trigger] d.subrange(0, (i + 1 - start) as int)[k],
                ) by {
                    assert(d.subrange(0, (i + 1 - start) as int)[k] == v@[start + k]);
                }
                if forall|k: int| 0 <= k < d.len() ==> is_ascii_digit(#[trigger] d[k]) {
                    lemma_digits_value_grows(d, (i + 1 - start) as int);
                }
                assert(d.subrange(0, (i + 1 - start) as int) =~= v@.subrange(start as int, i + 1));
            }
            return None;
        }
        val = nv;
        i = i + 1;
    }
    assert(v@.subrange(start as int, v.len() as int) =~= d);
    Some(val as u64)
}

/// Whether `v` holds `t` as a contiguous piece.
pub fn chars_contain(v: &Vec<char>, t: &str) -> (r: bool)
    ensures
        r == contains_seq(v@, t@),
{
    let w = chars_of(t);
    if w.len() > v.len() {
        return false;
    }
    let mut i: usize = 0;
    while i <= v.len() - w.len()
        invariant
            w@ == t@,
            w.len() <= v.len(),
            i <= v.len() - w.len() + 1,
            forall|k: int| 0 <= k < i ==> #[trigger] v@.subrange(k, k + w.len()) != t@,
        decreases v.len() - i,
    {
        let mut j: usize = 0;
        while j < w.len() && v[i + j] == w[j]
            invariant
                j <= w.len(),
                i + w.len() <= v.len(),
                forall|m: int| 0 <= m < j ==> v@[i + m] == w@[m],
            decreases w.len() - j,
        {
            j = j + 1;
        }
        if j == w.len() {
            assert(v@.subrange(i as int, i + w.len()) =~= t@);
            return true;
        }
        assert(v@.subrange(i as int, i + w.len())[j as int] != t@[j as int]);
        i = i + 1;
    }
    false
}

/// Whether `s` holds `t` as a contiguous piece (Rust's `str::contains`).
pub fn contains_text(s: &str, t: &str) -> (r: bool)
    ensures
        r == contains_seq(s@, t@),
{
    let v = chars_of(s);
    chars_contain(&v, t)
}

/// The second whitespace-separated word of `s`
/// (`s.split_whitespace().nth(1)`).
pub fn second_word(s: &str) -> (r: Option<String>)
    ensures
        match r {
            Some(w) => ws_words(s@).len() > 1 && w@ == ws_words(s@)[1],
            None => ws_words(s@).len() <= 1,
        },
{
    let mut words = split_words(s);
    proof {
        assert(words@.map_values(|x: String| x@).len() == words@.len());
    }
    if words.len() > 1 {
        let w = words.remove(1);
        proof {
            assert(words@.map_values(|x: String| x@).len() == words@.len());
        }
        Some(w)
    } else {
        None
    }
}

} // verus!
