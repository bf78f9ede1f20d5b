//! Character-level string helpers shared by the rest of the library.

use vstd::prelude::*;

verus! {

/// The ASCII decimal digit for `d` (which must be below ten).
pub open spec fn digit_char(d: nat) -> char {
    if d == 0 { '0' }
    else if d == 1 { '1' }
    else if d == 2 { '2' }
    else if d == 3 { '3' }
    else if d == 4 { '4' }
    else if d == 5 { '5' }
    else if d == 6 { '6' }
    else if d == 7 { '7' }
    else if d == 8 { '8' }
    else { '9' }
}

/// Decimal representation of `n`, most significant digit first, with no
/// leading zeros (zero itself is written `0`).
pub open spec fn decimal(n: nat) -> Seq<char>
    decreases n,
{
    if n < 10 {
        seq![digit_char(n)]
    } else {
        decimal(n / 10).push(digit_char(n % 10))
    }
}

/// Appends one character to a string (`String::push`).
#[verifier::external_body]
pub(crate) fn push_char(s: &mut String, c: char)
    ensures
        final(s)@ == old(s)@.push(c),
{
    s.push(c);
}

fn digit(d: u64) -> (c: char)
    requires
        d < 10,
    ensures
        c == digit_char(d as nat),
{
    if d == 0 { '0' }
    else if d == 1 { '1' }
    else if d == 2 { '2' }
    else if d == 3 { '3' }
    else if d == 4 { '4' }
    else if d == 5 { '5' }
    else if d == 6 { '6' }
    else if d == 7 { '7' }
    else if d == 8 { '8' }
    else { '9' }
}

/// Appends the decimal representation of `n` to `s`.
pub fn push_decimal(s: &mut String, n: u64)
    ensures
        final(s)@ == old(s)@ + decimal(n as nat),
    decreases n,
{
    if n < 10 {
        push_char(s, digit(n));
        assert(decimal(n as nat) == seq![digit_char(n as nat)]);
        assert(old(s)@.push(digit_char(n as nat)) =~= old(s)@ + seq![digit_char(n as nat)]);
    } else {
        push_decimal(s, n / 10);
        push_char(s, digit(n % 10));
        assert(old(s)@ + decimal((n / 10) as nat) + seq![digit_char((n % 10) as nat)]
            =~= old(s)@ + decimal(n as nat));
    }
}

/// The characters of a string slice, in order.
pub fn chars_of(s: &str) -> (v: Vec<char>)
    ensures
        v@ == s@,
{
    let mut v: Vec<char> = Vec::new();
    for c in iter: s.chars()
        invariant
            v@ == iter.seq().take(iter.index() as int),
    {
        v.push(c);
    }
    v
}

/// A fresh string holding the characters of `s`.
pub fn string_from_str(s: &str) -> (r: String)
    ensures
        r@ == s@,
{
    let cs = chars_of(s);
    string_from_chars(&cs)
}

/// A string made of the given characters.
pub fn string_from_chars(cs: &Vec<char>) -> (r: String)
    ensures
        r@ == cs@,
{
    let mut r = String::new();
    let mut i: usize = 0;
    while i < cs.len()
        invariant
            i <= cs.len(),
            r@ == cs@.subrange(0, i as int),
        decreases cs.len() - i,
    {
        push_char(&mut r, cs[i]);
        assert(cs@.subrange(0, i as int).push(cs@[i as int]) =~= cs@.subrange(0, (i + 1) as int));
        i = i + 1;
    }
    assert(cs@.subrange(0, cs@.len() as int) =~= cs@);
    r
}

/// Appends the characters of `t` to `s`.
pub fn push_str(s: &mut String, t: &str)
    ensures
        final(s)@ == old(s)@ + t@,
{
    let cs = chars_of(t);
    let mut i: usize = 0;
    while i < cs.len()
        invariant
            i <= cs.len(),
            cs@ == t@,
            s@ == old(s)@ + cs@.subrange(0, i as int),
        decreases cs.len() - i,
    {
        push_char(s, cs[i]);
        assert(old(s)@ + cs@.subrange(0, i as int) + seq![cs@[i as int]]
            =~= old(s)@ + cs@.subrange(0, (i + 1) as int));
        i = i + 1;
    }
    assert(cs@.subrange(0, cs@.len() as int) =~= cs@);
}

/// Whether two string slices hold the same characters.
pub fn str_eq(a: &str, b: &str) -> (r: bool)
    ensures
        r == (a@ == b@),
{
    let x = chars_of(a);
    let y = chars_of(b);
    if x.len() != y.len() {
        return false;
    }
    let mut i: usize = 0;
    while i < x.len()
        invariant
            i <= x.len(),
            x.len() == y.len(),
            x@ == a@,
            y@ == b@,
            forall|j: int| 0 <= j < i ==> x@[j] == y@[j],
        decreases x.len() - i,
    {
        if x[i] != y[i] {
            return false;
        }
        i = i + 1;
    }
    assert(x@ =~= y@);
    true
}

/// Whether `c` is an ASCII decimal digit.
pub open spec fn is_digit(c: char) -> bool {
    48 <= (c as u32) <= 57
}

/// The value of an ASCII digit.
pub open spec fn digit_value(c: char) -> int {
    (c as u32) as int - 48
}

/// The value of a string of decimal digits.
pub open spec fn digits_value(s: Seq<char>) -> int
    decreases s.len(),
{
    if s.len() == 0 {
        0
    } else {
        digits_value(s.drop_last()) * 10 + digit_value(s.last())
    }
}

/// `s` without the `+` sign it may start with.
pub open spec fn unsigned_part(s: Seq<char>) -> Seq<char> {
    if s.len() > 0 && s[0] == '+' { s.drop_first() } else { s }
}

pub open spec fn all_digits(s: Seq<char>) -> bool {
    forall|i: int| 0 <= i < s.len() ==> #[trigger] is_digit(s[i])
}

/// What `str::parse::<usize>` gives for `s`: an optional `+` followed by
/// at least one decimal digit, all digits, whose value fits a `usize`.
pub open spec fn parse_usize(s: Seq<char>) -> Option<usize> {
    let digits = unsigned_part(s);
    if digits.len() > 0 && all_digits(digits) && digits_value(digits) <= usize::MAX {
        Some(digits_value(digits) as usize)
    } else {
        None
    }
}

/// The number after `prefix` in `s`, when `s` starts with `prefix`.
pub open spec fn index_after_prefix(s: Seq<char>, prefix: Seq<char>) -> Option<usize> {
    if prefix.len() <= s.len() && s.subrange(0, prefix.len() as int) == prefix {
        parse_usize(s.subrange(prefix.len() as int, s.len() as int))
    } else {
        None
    }
}

proof fn lemma_digits_value_grows(s: Seq<char>, c: char)
    requires
        is_digit(c),
    ensures
        digits_value(s.push(c)) == digits_value(s) * 10 + digit_value(c),
        0 <= digit_value(c) <= 9,
{
    assert(s.push(c).drop_last() =~= s);
}

proof fn lemma_digits_value_nonneg(s: Seq<char>)
    requires
        forall|i: int| 0 <= i < s.len() ==> #[trigger] is_digit(s[i]),
    ensures
        digits_value(s) >= 0,
    decreases s.len(),
{
    if s.len() > 0 {
        assert(is_digit(s[s.len() - 1]));
        lemma_digits_value_nonneg(s.drop_last());
    }
}

proof fn lemma_digit_char(d: nat)
    requires
        d < 10,
    ensures
        is_digit(digit_char(d)),
        digit_value(digit_char(d)) == d,
{
}

/// The decimal form of `n` is a non-empty run of digits whose value is `n`.
pub proof fn lemma_decimal_digits(n: nat)
    ensures
        decimal(n).len() > 0,
        all_digits(decimal(n)),
        digits_value(decimal(n)) == n,
    decreases n,
{
    if n < 10 {
        lemma_digit_char(n);
        assert(decimal(n) == seq![digit_char(n)]);
        assert(decimal(n).drop_last() =~= Seq::<char>::empty());
        assert(decimal(n).last() == digit_char(n));
        assert(digits_value(decimal(n)) == digits_value(Seq::<char>::empty()) * 10 + digit_value(digit_char(n)));
    } else {
        lemma_decimal_digits(n / 10);
        lemma_digit_char(n % 10);
        let prefix = decimal(n / 10);
        assert(decimal(n) == prefix.push(digit_char(n % 10)));
        assert(decimal(n).drop_last() =~= prefix);
        assert(decimal(n).last() == digit_char(n % 10));
        assert(digits_value(decimal(n)) == digits_value(prefix) * 10 + digit_value(digit_char(n % 10)));
        assert((n / 10) * 10 + n % 10 == n);
        assert forall|i: int| 0 <= i < decimal(n).len() implies #[trigger] is_digit(decimal(n)[i]) by {
            if i < prefix.len() {
                assert(decimal(n)[i] == prefix[i]);
            }
        }
    }
}

/// Parsing what `decimal` writes gives the number back.
pub proof fn law_parse_reads_back_decimal(n: usize)
    ensures
        parse_usize(decimal(n as nat)) == Some(n),
{
    lemma_decimal_digits(n as nat);
    let d = decimal(n as nat);
    assert(is_digit(d[0]));
    assert(d[0] != '+');
    assert(unsigned_part(d) == d);
}

/// Parses the decimal number in `cs[start..]` as `str::parse::<usize>` does.
pub fn parse_usize_chars(cs: &Vec<char>, start: usize) -> (r: Option<usize>)
    requires
        start <= cs@.len(),
    ensures
        r == parse_usize(cs@.subrange(start as int, cs@.len() as int)),
{
    let ghost s = cs@.subrange(start as int, cs@.len() as int);
    let mut i = start;
    if i < cs.len() && cs[i] == '+' {
        i = i + 1;
    }
    let ghost digits = cs@.subrange(i as int, cs@.len() as int);
    assert(digits == unsigned_part(s));
    if i == cs.len() {
        return None;
    }
    let first = i;
    let mut value: usize = 0;
    let mut overflow = false;
    while i < cs.len()
        invariant
            start <= first <= i <= cs@.len(),
            first < cs@.len(),
            digits == cs@.subrange(first as int, cs@.len() as int),
            s == cs@.subrange(start as int, cs@.len() as int),
            digits == unsigned_part(s),
            forall|k: int| first <= k < i ==> #[trigger] is_digit(cs@[k]),
            !overflow ==> value as int == digits_value(cs@.subrange(first as int, i as int)),
            overflow ==> digits_value(cs@.subrange(first as int, i as int)) > usize::MAX,
        decreases cs.len() - i,
    {
        let c = cs[i];
        let code = c as u32;
        if code < 48 || code > 57 {
            proof {
                assert(digits[i - first] == c);
                assert(!is_digit(c));
                assert(!is_digit(digits[i - first]));
                assert(!all_digits(digits));
            }
            return None;
        }
        let d = (code - 48) as usize;
        let ghost prefix = cs@.subrange(first as int, i as int);
        proof {
            lemma_digits_value_grows(prefix, c);
            assert(cs@.subrange(first as int, i + 1) =~= prefix.push(c));
            assert forall|k: int| 0 <= k < prefix.len() implies #[trigger] is_digit(prefix[k]) by {
                assert(prefix[k] == cs@[first + k]);
            }
            lemma_digits_value_nonneg(prefix);
        }
        if !overflow {
            if value > usize::MAX / 10 || (value == usize::MAX / 10 && d > usize::MAX % 10) {
                overflow = true;
            } else {
                value = value * 10 + d;
            }
        }
        i = i + 1;
    }
    proof {
        assert(cs@.subrange(first as int, cs@.len() as int) == digits);
        assert forall|k: int| 0 <= k < digits.len() implies #[trigger] is_digit(digits[k]) by {
            assert(digits[k] == cs@[first + k]);
        }
    }
    if overflow {
        None
    } else {
        Some(value)
    }
}

/// The number after `prefix` in `s`, when `s` starts with `prefix`.
pub fn index_after_prefix_exec(s: &str, prefix: &str) -> (r: Option<usize>)
    ensures
        r == index_after_prefix(s@, prefix@),
{
    let cs = chars_of(s);
    let ps = chars_of(prefix);
    if ps.len() > cs.len() {
        return None;
    }
    let mut i: usize = 0;
    while i < ps.len()
        invariant
            i <= ps@.len(),
            ps@.len() <= cs@.len(),
            cs@ == s@,
            ps@ == prefix@,
            forall|k: int| 0 <= k < i ==> cs@[k] == ps@[k],
        decreases ps.len() - i,
    {
        if cs[i] != ps[i] {
            assert(cs@.subrange(0, ps@.len() as int)[i as int] != ps@[i as int]);
            return None;
        }
        i = i + 1;
    }
    assert(cs@.subrange(0, ps@.len() as int) =~= ps@);
    parse_usize_chars(&cs, ps.len())
}

pub open spec fn starts_with(s: Seq<char>, p: Seq<char>) -> bool {
    p.len() <= s.len() && s.subrange(0, p.len() as int) == p
}

pub open spec fn ends_with(s: Seq<char>, p: Seq<char>) -> bool {
    p.len() <= s.len() && s.subrange(s.len() - p.len(), s.len() as int) == p
}

/// `p` occurs in `s` starting at position `i`.
pub open spec fn occurs_at(s: Seq<char>, p: Seq<char>, i: int) -> bool {
    0 <= i && i + p.len() <= s.len() && s.subrange(i, i + p.len()) == p
}

pub open spec fn contains_str(s: Seq<char>, p: Seq<char>) -> bool {
    exists|i: int| occurs_at(s, p, i)
}

/// Every `from` in `s` replaced by `to`.
pub open spec fn replace_char(s: Seq<char>, from: char, to: char) -> Seq<char> {
    s.map_values(|c: char| if c == from { to } else { c })
}

pub open spec fn is_ascii_upper(c: char) -> bool {
    65 <= (c as u32) <= 90
}

/// The ASCII lowercase form of a character; other characters are kept.
pub open spec fn ascii_lower_char(c: char) -> char {
    if is_ascii_upper(c) { ((c as u32) + 32) as char } else { c }
}

pub open spec fn ascii_lower(s: Seq<char>) -> Seq<char> {
    s.map_values(|c: char| ascii_lower_char(c))
}

pub fn lower_char(c: char) -> (r: char)
    ensures
        r == ascii_lower_char(c),
{
    if 'A' <= c && c <= 'Z' {
        let b = c as u8;
        ((b + 32) as u8) as char
    } else {
        c
    }
}

/// Whether the characters `s[start..start + p.len()]` are those of `p`.
pub fn matches_at(s: &Vec<char>, p: &Vec<char>, start: usize) -> (r: bool)
    requires
        start + p@.len() <= s@.len(),
    ensures
        r == (s@.subrange(start as int, start + p@.len()) == p@),
{
    let n = s.len();
    let mut i: usize = 0;
    while i < p.len()
        invariant
            i <= p@.len(),
            n == s@.len(),
            start + p@.len() <= s@.len(),
            forall|k: int| 0 <= k < i ==> s@[start + k] == p@[k],
        decreases p.len() - i,
    {
        assert(start + i < s@.len());
        if s[start + i] != p[i] {
            assert(s@.subrange(start as int, start + p@.len())[i as int] != p@[i as int]);
            return false;
        }
        i = i + 1;
    }
    assert(s@.subrange(start as int, start + p@.len()) =~= p@);
    true
}

pub fn seq_starts_with(s: &Vec<char>, p: &str) -> (r: bool)
    ensures
        r == starts_with(s@, p@),
{
    let pc = chars_of(p);
    if pc.len() > s.len() {
        return false;
    }
    matches_at(s, &pc, 0)
}

pub fn seq_ends_with(s: &Vec<char>, p: &str) -> (r: bool)
    ensures
        r == ends_with(s@, p@),
{
    let pc = chars_of(p);
    if pc.len() > s.len() {
        return false;
    }
    matches_at(s, &pc, s.len() - pc.len())
}

pub fn seq_contains(s: &Vec<char>, p: &str) -> (r: bool)
    ensures
        r == contains_str(s@, p@),
{
    let pc = chars_of(p);
    if pc.len() > s.len() {
        assert forall|i: int| !occurs_at(s@, p@, i) by {}
        return false;
    }
    let last = s.len() - pc.len();
    let mut i: usize = 0;
    loop
        invariant
            pc@ == p@,
            last == s@.len() - pc@.len(),
            i <= last,
            forall|k: int| 0 <= k < i ==> !occurs_at(s@, p@, k),
        decreases last - i,
    {
        if matches_at(s, &pc, i) {
            assert(occurs_at(s@, p@, i as int));
            return true;
        }
        if i == last {
            assert forall|k: int| !occurs_at(s@, p@, k) by {
                if 0 <= k < i {
                }
            }
            return false;
        }
        i = i + 1;
    }
}

/// `s` with every backslash turned into a slash.
pub fn slashes_normalized(s: &Vec<char>) -> (r: Vec<char>)
    ensures
        r@ == replace_char(s@, '\\', '/'),
{
    let mut r: Vec<char> = Vec::new();
    let mut i: usize = 0;
    while i < s.len()
        invariant
            i <= s@.len(),
            r@ =~= replace_char(s@, '\\', '/').subrange(0, i as int),
        decreases s.len() - i,
    {
        let c = s[i];
        r.push(if c == '\\' { '/' } else { c });
        i = i + 1;
    }
    r
}

/// `s` in ASCII lowercase.
pub fn lowercased(s: &Vec<char>) -> (r: Vec<char>)
    ensures
        r@ == ascii_lower(s@),
{
    let mut r: Vec<char> = Vec::new();
    let mut i: usize = 0;
    while i < s.len()
        invariant
            i <= s@.len(),
            r@ =~= ascii_lower(s@).subrange(0, i as int),
        decreases s.len() - i,
    {
        r.push(lower_char(s[i]));
        i = i + 1;
    }
    r
}

/// Whether `s` holds exactly the characters of `t`.
pub fn seq_eq_str(s: &Vec<char>, t: &str) -> (r: bool)
    ensures
        r == (s@ == t@),
{
    let tc = chars_of(t);
    if tc.len() != s.len() {
        return false;
    }
    let r = matches_at(s, &tc, 0);
    assert(s@.subrange(0, tc@.len() as int) =~= s@);
    r
}

/// How a file refused for its size is described: what it is, its path,
/// its size and the limit.
pub open spec fn too_large_text(context: Seq<char>, path: Seq<char>, size_bytes: nat, max_bytes: nat) -> Seq<char> {
    context + " is too large to load safely: "@ + path + " ("@ + decimal(size_bytes) + " bytes, max "@
        + decimal(max_bytes) + ")"@
}

/// The message for a file larger than the size limit allows.
pub fn too_large_message(context: &str, path: &str, size_bytes: u64, max_bytes: u64) -> (msg: String)
    ensures
        msg@ == too_large_text(context@, path@, size_bytes as nat, max_bytes as nat),
{
    let mut msg = String::new();
    push_str(&mut msg, context);
    push_str(&mut msg, " is too large to load safely: ");
    push_str(&mut msg, path);
    push_str(&mut msg, " (");
    push_decimal(&mut msg, size_bytes);
    push_str(&mut msg, " bytes, max ");
    push_decimal(&mut msg, max_bytes);
    push_str(&mut msg, ")");
    assert(msg@ =~= too_large_text(context@, path@, size_bytes as nat, max_bytes as nat));
    msg
}

/// Whether `c` is white space as `char::is_whitespace` has it: the
/// characters with the Unicode `White_Space` property.
pub open spec fn is_whitespace_char(c: char) -> bool {
    let u = c as u32;
    ||| u == 0x20
    ||| 0x09 <= u <= 0x0D
    ||| u == 0x85
    ||| u == 0xA0
    ||| u == 0x1680
    ||| 0x2000 <= u <= 0x200A
    ||| u == 0x2028
    ||| u == 0x2029
    ||| u == 0x202F
    ||| u == 0x205F
    ||| u == 0x3000
}

/// `s` without its leading white space.
pub open spec fn trim_start_chars(s: Seq<char>) -> Seq<char>
    decreases s.len(),
{
    if s.len() > 0 && is_whitespace_char(s[0]) {
        trim_start_chars(s.drop_first())
    } else {
        s
    }
}

/// `s` without its trailing white space.
pub open spec fn trim_end_chars(s: Seq<char>) -> Seq<char>
    decreases s.len(),
{
    if s.len() > 0 && is_whitespace_char(s.last()) {
        trim_end_chars(s.drop_last())
    } else {
        s
    }
}

/// `s` without leading and trailing white space, as `str::trim` gives it.
pub open spec fn trimmed(s: Seq<char>) -> Seq<char> {
    trim_end_chars(trim_start_chars(s))
}

pub fn is_whitespace(c: char) -> (r: bool)
    ensures
        r == is_whitespace_char(c),
{
    let u = c as u32;
    u == 0x20 || (0x09 <= u && u <= 0x0D) || u == 0x85 || u == 0xA0 || u == 0x1680
        || (0x2000 <= u && u <= 0x200A) || u == 0x2028 || u == 0x2029 || u == 0x202F || u == 0x205F
        || u == 0x3000
}

/// The text of `s` without leading and trailing white space.
pub fn trim_text(s: &str) -> (r: String)
    ensures
        r@ == trimmed(s@),
{
    let cs = chars_of(s);
    let n = cs.len();
    let mut i: usize = 0;
    assert(cs@.subrange(0, n as int) =~= cs@);
    while i < n && is_whitespace(cs[i])
        invariant
            i <= n,
            n == cs@.len(),
            trim_start_chars(cs@) == trim_start_chars(cs@.subrange(i as int, n as int)),
        decreases n - i,
    {
        assert(cs@.subrange(i as int, n as int).drop_first() =~= cs@.subrange(i + 1, n as int));
        i = i + 1;
    }
    assert(trim_start_chars(cs@) == cs@.subrange(i as int, n as int));
    let mut j: usize = n;
    while j > i && is_whitespace(cs[j - 1])
        invariant
            i <= j <= n,
            n == cs@.len(),
            trim_end_chars(cs@.subrange(i as int, n as int)) == trim_end_chars(cs@.subrange(i as int, j as int)),
        decreases j - i,
    {
        assert(cs@.subrange(i as int, j as int).drop_last() =~= cs@.subrange(i as int, j - 1));
        j = j - 1;
    }
    assert(trim_end_chars(cs@.subrange(i as int, j as int)) == cs@.subrange(i as int, j as int));
    let mut r = String::new();
    let mut k: usize = i;
    while k < j
        invariant
            i <= k <= j <= n,
            n == cs@.len(),
            r@ == cs@.subrange(i as int, k as int),
        decreases j - k,
    {
        push_char(&mut r, cs[k]);
        assert(cs@.subrange(i as int, k as int).push(cs@[k as int]) =~= cs@.subrange(i as int, k + 1));
        k = k + 1;
    }
    r
}

} // verus!
