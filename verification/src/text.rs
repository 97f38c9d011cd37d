//! Character-level text operations on which the rest of the library is built.

use vstd::prelude::*;

verus! {

/// `String::push` appends the character to the end of the string, as std documents it.
pub assume_specification[ String::push ](string: &mut String, ch: char)
    ensures
        final(string)@ == old(string)@.push(ch),
;

/// The characters of a string slice, in order.
pub fn chars_of(s: &str) -> (r: Vec<char>)
    ensures
        r@ == s@,
{
    broadcast use vstd::string::group_string_axioms;
    let mut r: Vec<char> = Vec::new();
    for c in it: s.chars()
        invariant
            r@ == it.seq().take(it.index() as int),
    {
        r.push(c);
    }
    r
}

/// A string holding exactly the given characters.
pub fn string_of(v: &[char]) -> (r: String)
    ensures
        r@ == v@,
{
    let mut r = String::new();
    let mut i: usize = 0;
    while i < v.len()
        invariant
            i <= v.len(),
            r@ == v@.take(i as int),
        decreases v.len() - i,
    {
        r.push(v[i]);
        i += 1;
        assert(v@.take(i as int) == v@.take(i - 1).push(v@[i - 1]));
    }
    assert(v@.take(v.len() as int) == v@);
    r
}


/// Unicode White_Space, the set that `char::is_whitespace` tests.
pub open spec fn is_ws(c: char) -> bool {
    let u = c as u32;
    ||| 0x09 <= u <= 0x0D
    ||| u == 0x20
    ||| u == 0x85
    ||| u == 0xA0
    ||| u == 0x1680
    ||| 0x2000 <= u <= 0x200A
    ||| u == 0x2028
    ||| u == 0x2029
    ||| u == 0x202F
    ||| u == 0x205F
    ||| u == 0x3000
}

/// Whether a character is Unicode white space.
pub fn is_whitespace(c: char) -> (b: bool)
    ensures
        b == is_ws(c),
{
    let u = c as u32;
    (0x09 <= u && u <= 0x0D) || u == 0x20 || u == 0x85 || u == 0xA0 || u == 0x1680 || (0x2000
        <= u && u <= 0x200A) || u == 0x2028 || u == 0x2029 || u == 0x202F || u == 0x205F || u
        == 0x3000
}

/// `s` with its leading white space removed.
pub open spec fn trim_start(s: Seq<char>) -> Seq<char>
    decreases s.len(),
{
    if s.len() > 0 && is_ws(s[0]) {
        trim_start(s.drop_first())
    } else {
        s
    }
}

/// `s` with its trailing white space removed.
pub open spec fn trim_end(s: Seq<char>) -> Seq<char>
    decreases s.len(),
{
    if s.len() > 0 && is_ws(s.last()) {
        trim_end(s.drop_last())
    } else {
        s
    }
}

/// What `str::trim` leaves of `s`.
pub open spec fn trim(s: Seq<char>) -> Seq<char> {
    trim_end(trim_start(s))
}

/// A start-trimmed text does not begin with white space.
proof fn lemma_trim_start_head(s: Seq<char>)
    ensures
        trim_start(s).len() == 0 || !is_ws(trim_start(s)[0]),
    decreases s.len(),
{
    if s.len() > 0 && is_ws(s[0]) {
        lemma_trim_start_head(s.drop_first());
    }
}

/// An end-trimmed text is a prefix of the text and does not end with white space.
proof fn lemma_trim_end_prefix(s: Seq<char>)
    ensures
        trim_end(s).len() <= s.len(),
        trim_end(s) == s.subrange(0, trim_end(s).len() as int),
        trim_end(s).len() == 0 || !is_ws(trim_end(s).last()),
    decreases s.len(),
{
    if s.len() > 0 && is_ws(s.last()) {
        lemma_trim_end_prefix(s.drop_last());
        assert(s.drop_last().subrange(0, trim_end(s).len() as int) == s.subrange(0, trim_end(s).len() as int));
    } else {
        assert(s.subrange(0, s.len() as int) == s);
    }
}

/// Trimming a trimmed text changes nothing.
pub proof fn lemma_trim_idempotent(s: Seq<char>)
    ensures
        trim(trim(s)) == trim(s),
{
    let a = trim_start(s);
    let t = trim_end(a);
    lemma_trim_start_head(s);
    lemma_trim_end_prefix(a);
    if t.len() > 0 {
        assert(t[0] == a[0]);
    }
    assert(trim_start(t) == t);
    lemma_trim_end_prefix(t);
}

/// Leading white space does not change the start-trimmed text.
pub proof fn lemma_trim_start_skip(s: Seq<char>, i: int)
    requires
        0 <= i <= s.len(),
        forall|k: int| 0 <= k < i ==> is_ws(#[trigger] s[k]),
    ensures
        trim_start(s) == trim_start(s.subrange(i, s.len() as int)),
    decreases i,
{
    if i > 0 {
        lemma_trim_start_skip(s.drop_first(), i - 1);
        assert(s.drop_first().subrange(i - 1, s.drop_first().len() as int) == s.subrange(
            i,
            s.len() as int,
        ));
    } else {
        assert(s.subrange(0, s.len() as int) == s);
    }
}

/// Trailing white space does not change the end-trimmed text.
pub proof fn lemma_trim_end_skip(s: Seq<char>, j: int)
    requires
        0 <= j <= s.len(),
        forall|k: int| j <= k < s.len() ==> is_ws(#[trigger] s[k]),
    ensures
        trim_end(s) == trim_end(s.subrange(0, j)),
    decreases s.len() - j,
{
    if j < s.len() {
        lemma_trim_end_skip(s.drop_last(), j);
        assert(s.drop_last().subrange(0, j) == s.subrange(0, j));
    } else {
        assert(s.subrange(0, s.len() as int) == s);
    }
}

/// The characters of `v` without leading and trailing white space.
pub fn trim_chars(v: &[char]) -> (r: Vec<char>)
    ensures
        r@ == trim(v@),
{
    let n = v.len();
    let mut i: usize = 0;
    while i < n && is_whitespace(v[i])
        invariant
            i <= n == v@.len(),
            forall|k: int| 0 <= k < i ==> is_ws(#[trigger] v@[k]),
        decreases n - i,
    {
        i += 1;
    }
    proof {
        lemma_trim_start_skip(v@, i as int);
    }
    let ghost rest = v@.subrange(i as int, n as int);
    let mut j: usize = n;
    while j > i && is_whitespace(v[j - 1])
        invariant
            i <= j <= n == v@.len(),
            rest == v@.subrange(i as int, n as int),
            forall|k: int| j <= k < n ==> is_ws(#[trigger] v@[k]),
        decreases j,
    {
        j -= 1;
    }
    proof {
        assert forall|k: int| j - i <= k < rest.len() implies is_ws(#[trigger] rest[k]) by {
            assert(rest[k] == v@[k + i]);
        }
        lemma_trim_end_skip(rest, j - i);
        assert(rest.subrange(0, j - i) == v@.subrange(i as int, j as int));
        let t = v@.subrange(i as int, j as int);
        if t.len() > 0 {
            assert(!is_ws(t[0]));
            assert(!is_ws(t.last()));
        }
        assert(trim_start(t) == t);
        assert(trim_end(t) == t);
    }
    let mut r: Vec<char> = Vec::new();
    let mut k: usize = i;
    while k < j
        invariant
            i <= k <= j <= n == v@.len(),
            r@ == v@.subrange(i as int, k as int),
        decreases j - k,
    {
        r.push(v[k]);
        k += 1;
    }
    r
}

/// `str::trim` of `s`, as an owned string.
pub fn trim_str(s: &str) -> (r: String)
    ensures
        r@ == trim(s@),
{
    let v = chars_of(s);
    let t = trim_chars(v.as_slice());
    string_of(t.as_slice())
}

/// Whether `s` is empty once trimmed.
pub fn is_blank(s: &str) -> (b: bool)
    ensures
        b == (trim(s@).len() == 0),
{
    let t = trim_str(s);
    t.as_str().is_empty()
}

/// `pat` occurs in `s` starting at index `i`.
pub open spec fn occurs_at(s: Seq<char>, pat: Seq<char>, i: int) -> bool {
    0 <= i && i + pat.len() <= s.len() && s.subrange(i, i + pat.len()) == pat
}

/// `pat` occurs somewhere in `s`, as `str::contains` tests.
pub open spec fn contains_seq(s: Seq<char>, pat: Seq<char>) -> bool {
    exists|i: int| occurs_at(s, pat, i)
}

/// Whether `pat` occurs in `s` at index `i`.
pub fn occurs_at_exec(s: &[char], pat: &[char], i: usize) -> (b: bool)
    requires
        i <= s.len(),
    ensures
        b == occurs_at(s@, pat@, i as int),
{
    if pat.len() > s.len() - i {
        return false;
    }
    let mut k: usize = 0;
    while k < pat.len()
        invariant
            k <= pat.len(),
            i + pat.len() <= s.len(),
            forall|m: int| 0 <= m < k ==> s@[i + m] == pat@[m],
        decreases pat.len() - k,
    {
        if s[i + k] != pat[k] {
            assert(s@.subrange(i as int, i + pat.len())[k as int] != pat@[k as int]);
            return false;
        }
        k += 1;
    }
    assert(s@.subrange(i as int, i + pat.len()) =~= pat@);
    true
}

/// The first index at or after `from` at which `pat` occurs in `s`.
pub fn find_from(s: &[char], pat: &[char], from: usize) -> (r: Option<usize>)
    requires
        from <= s.len(),
    ensures
        match r {
            Some(i) => from <= i && occurs_at(s@, pat@, i as int) && forall|k: int|
                from <= k < i ==> !occurs_at(s@, pat@, k),
            None => forall|k: int| from <= k ==> !occurs_at(s@, pat@, k),
        },
{
    let mut i: usize = from;
    while i < s.len()
        invariant
            from <= i <= s.len(),
            forall|k: int| from <= k < i ==> !occurs_at(s@, pat@, k),
        decreases s.len() - i,
    {
        if occurs_at_exec(s, pat, i) {
            return Some(i);
        }
        i += 1;
    }
    if occurs_at_exec(s, pat, i) {
        return Some(i);
    }
    None
}

/// Whether `pat` occurs in `s`.
pub fn contains_chars(s: &[char], pat: &[char]) -> (b: bool)
    ensures
        b == contains_seq(s@, pat@),
{
    match find_from(s, pat, 0) {
        Some(_) => true,
        None => false,
    }
}

/// `str::contains` for two string slices.
pub fn str_contains(s: &str, pat: &str) -> (b: bool)
    ensures
        b == contains_seq(s@, pat@),
{
    let a = chars_of(s);
    let p = chars_of(pat);
    contains_chars(a.as_slice(), p.as_slice())
}

/// `s` starts with `p`.
pub open spec fn starts_with(s: Seq<char>, p: Seq<char>) -> bool {
    occurs_at(s, p, 0)
}

/// Whether a text starts with a prefix.
pub fn str_starts_with(s: &str, p: &str) -> (b: bool)
    ensures
        b == starts_with(s@, p@),
{
    let a = chars_of(s);
    let q = chars_of(p);
    occurs_at_exec(a.as_slice(), q.as_slice(), 0)
}

/// The index of the first `c` in `s`.
pub open spec fn first_index_of(s: Seq<char>, c: char) -> Option<int> {
    if exists|i: int| 0 <= i < s.len() && s[i] == c {
        Some(choose|i: int| 0 <= i < s.len() && s[i] == c && forall|k: int| 0 <= k < i ==> s[k] != c)
    } else {
        None
    }
}

/// The index of the first occurrence of `c`.
pub fn find_char(s: &[char], c: char) -> (r: Option<usize>)
    ensures
        match r {
            Some(i) => i < s.len() && s@[i as int] == c && forall|k: int| 0 <= k < i ==> s@[k] != c,
            None => forall|k: int| 0 <= k < s.len() ==> s@[k] != c,
        },
{
    let mut i: usize = 0;
    while i < s.len()
        invariant
            i <= s.len(),
            forall|k: int| 0 <= k < i ==> s@[k] != c,
        decreases s.len() - i,
    {
        if s[i] == c {
            return Some(i);
        }
        i += 1;
    }
    None
}

/// The index of the last occurrence of `c`.
pub fn rfind_char(s: &[char], c: char) -> (r: Option<usize>)
    ensures
        match r {
            Some(i) => i < s.len() && s@[i as int] == c && forall|k: int| i < k < s.len() ==> s@[k] != c,
            None => forall|k: int| 0 <= k < s.len() ==> s@[k] != c,
        },
{
    let mut i: usize = s.len();
    while i > 0
        invariant
            i <= s.len(),
            forall|k: int| i <= k < s.len() ==> s@[k] != c,
        decreases i,
    {
        if s[i - 1] == c {
            return Some(i - 1);
        }
        i -= 1;
    }
    None
}

/// The characters `v[from..to]`.
pub fn slice_chars(v: &[char], from: usize, to: usize) -> (r: Vec<char>)
    requires
        from <= to <= v.len(),
    ensures
        r@ == v@.subrange(from as int, to as int),
{
    let mut r: Vec<char> = Vec::new();
    let mut k: usize = from;
    while k < to
        invariant
            from <= k <= to <= v.len(),
            r@ == v@.subrange(from as int, k as int),
        decreases to - k,
    {
        r.push(v[k]);
        k += 1;
    }
    r
}

/// ASCII lower-casing of one character, as `char::to_ascii_lowercase` does.
pub open spec fn ascii_lower(c: char) -> char {
    if 'A' <= c && c <= 'Z' {
        ((c as u8) + 32) as char
    } else {
        c
    }
}

/// `str::eq_ignore_ascii_case`.
pub open spec fn eq_ignore_ascii_case(a: Seq<char>, b: Seq<char>) -> bool {
    a.len() == b.len() && forall|i: int| 0 <= i < a.len() ==> ascii_lower(#[trigger] a[i])
        == ascii_lower(b[i])
}

/// The ASCII lower case of a character; others are kept.
pub fn lower_ascii_char(c: char) -> (r: char)
    ensures
        r == ascii_lower(c),
{
    if 'A' <= c && c <= 'Z' {
        let u = (c as u8) + 32;
        u as char
    } else {
        c
    }
}

/// Equality up to ASCII case.
pub fn eq_ignore_ascii_case_chars(a: &[char], b: &[char]) -> (r: bool)
    ensures
        r == eq_ignore_ascii_case(a@, b@),
{
    if a.len() != b.len() {
        return false;
    }
    let mut i: usize = 0;
    while i < a.len()
        invariant
            i <= a.len() == b.len(),
            forall|k: int| 0 <= k < i ==> ascii_lower(#[trigger] a@[k]) == ascii_lower(b@[k]),
        decreases a.len() - i,
    {
        if lower_ascii_char(a[i]) != lower_ascii_char(b[i]) {
            return false;
        }
        i += 1;
    }
    true
}

/// What `str::to_lowercase` returns for `s`.
pub uninterp spec fn lowercase_of(s: Seq<char>) -> Seq<char>;

/// No character is an ASCII capital letter.
pub open spec fn no_ascii_upper(s: Seq<char>) -> bool {
    forall|i: int| 0 <= i < s.len() ==> !('A' <= #[trigger] s[i] <= 'Z')
}

/// Calls `str::to_lowercase` (Unicode lower-case mapping); its result is named
/// `lowercase_of` of the input characters. No lower-case mapping yields an
/// ASCII capital letter, so the result holds none.
#[verifier::external_body]
pub(crate) fn to_lowercase(s: &str) -> (r: String)
    ensures
        r@ == lowercase_of(s@),
        no_ascii_upper(r@),
{
    s.to_lowercase()
}

/// The decimal digit for `d < 10`.
pub open spec fn digit_char(d: nat) -> char {
    ((d + 48) as u8) as char
}

/// The decimal form of `n`, without leading zeros.
pub open spec fn decimal(n: nat) -> Seq<char>
    decreases n,
{
    if n < 10 {
        seq![digit_char(n)]
    } else {
        decimal(n / 10).push(digit_char(n % 10))
    }
}

/// The decimal form of an integer, with a leading `-` when negative.
pub open spec fn signed_decimal(n: int) -> Seq<char> {
    if n < 0 {
        seq!['-'] + decimal((-n) as nat)
    } else {
        decimal(n as nat)
    }
}

/// The character of a decimal digit.
pub fn digit_of(d: u64) -> (c: char)
    requires
        d < 10,
    ensures
        c == digit_char(d as nat),
{
    ((d as u8) + 48) as char
}

/// The decimal digits of a number.
pub fn decimal_chars(n: u64) -> (r: Vec<char>)
    ensures
        r@ == decimal(n as nat),
    decreases n,
{
    if n < 10 {
        let mut v = Vec::new();
        v.push(digit_of(n));
        v
    } else {
        let mut v = decimal_chars(n / 10);
        v.push(digit_of(n % 10));
        v
    }
}

/// `n.to_string()` for an unsigned integer.
pub fn u64_to_string(n: u64) -> (r: String)
    ensures
        r@ == decimal(n as nat),
{
    let v = decimal_chars(n);
    string_of(v.as_slice())
}

/// `n.to_string()` for a signed integer.
pub fn i64_to_string(n: i64) -> (r: String)
    ensures
        r@ == signed_decimal(n as int),
{
    if n < 0 {
        let m: u64 = if n == i64::MIN {
            9223372036854775808u64
        } else {
            (-n) as u64
        };
        let mut v: Vec<char> = Vec::new();
        v.push('-');
        let mut d = decimal_chars(m);
        v.append(&mut d);
        assert(v@ =~= seq!['-'] + decimal((-(n as int)) as nat));
        string_of(v.as_slice())
    } else {
        u64_to_string(n as u64)
    }
}

/// The lower-case hexadecimal digit for `d < 16`.
pub open spec fn hex_char(d: nat) -> char {
    if d < 10 {
        ((d + 48) as u8) as char
    } else {
        ((d + 87) as u8) as char
    }
}

/// The last `n` hexadecimal digits of `x`, zero padded, as `{:0n$x}` prints `x < 16^n`.
pub open spec fn hex_digits(x: nat, n: nat) -> Seq<char>
    decreases n,
{
    if n == 0 {
        Seq::empty()
    } else {
        hex_digits(x / 16, (n - 1) as nat).push(hex_char(x % 16))
    }
}

fn hex_digit_exec(d: u64) -> (c: char)
    requires
        d < 16,
    ensures
        c == hex_char(d as nat),
{
    if d < 10 {
        ((d as u8) + 48) as char
    } else {
        ((d as u8) + 87) as char
    }
}

/// The `n` lowest hexadecimal digits of `x`, most significant first.
pub fn hex_digits_exec(x: u64, n: usize) -> (r: Vec<char>)
    ensures
        r@ == hex_digits(x as nat, n as nat),
        r@.len() == n,
    decreases n,
{
    if n == 0 {
        Vec::new()
    } else {
        let mut v = hex_digits_exec(x / 16, n - 1);
        v.push(hex_digit_exec(x % 16));
        v
    }
}

/// `format!("{:016x}", x)`.
pub fn hex16(x: u64) -> (r: String)
    ensures
        r@ == hex_digits(x as nat, 16),
        r@.len() == 16,
{
    let v = hex_digits_exec(x, 16);
    string_of(v.as_slice())
}

/// Concatenation of string slices into a new string.
pub fn concat2(a: &str, b: &str) -> (r: String)
    ensures
        r@ == a@ + b@,
{
    let mut r = String::new();
    r.append(a);
    r.append(b);
    assert(r@ =~= a@ + b@);
    r
}

/// Three texts one after the other.
pub fn concat3(a: &str, b: &str, c: &str) -> (r: String)
    ensures
        r@ == a@ + b@ + c@,
{
    let mut r = String::new();
    r.append(a);
    r.append(b);
    r.append(c);
    assert(r@ =~= a@ + b@ + c@);
    r
}

/// Lexicographic order on characters, as `str`'s `Ord` compares (UTF-8 keeps code-point order).
pub open spec fn lex_le(a: Seq<char>, b: Seq<char>) -> bool
    decreases a.len(),
{
    if a.len() == 0 {
        true
    } else if b.len() == 0 {
        false
    } else if a[0] != b[0] {
        a[0] < b[0]
    } else {
        lex_le(a.drop_first(), b.drop_first())
    }
}

/// Every text sorts no later than itself.
pub proof fn lemma_lex_refl(a: Seq<char>)
    ensures
        lex_le(a, a),
    decreases a.len(),
{
    if a.len() > 0 {
        lemma_lex_refl(a.drop_first());
    }
}

/// Texts that sort no later than each other are equal.
pub proof fn lemma_lex_antisym(a: Seq<char>, b: Seq<char>)
    requires
        lex_le(a, b),
        lex_le(b, a),
    ensures
        a == b,
    decreases a.len(),
{
    if a.len() > 0 && b.len() > 0 {
        if a[0] == b[0] {
            lemma_lex_antisym(a.drop_first(), b.drop_first());
            assert(a =~= seq![a[0]] + a.drop_first());
            assert(b =~= seq![b[0]] + b.drop_first());
        } else {
        }
    } else {
        assert(a.len() == 0 && b.len() == 0);
        assert(a =~= b);
    }
}

/// Sorting order is transitive.
pub proof fn lemma_lex_trans(a: Seq<char>, b: Seq<char>, c: Seq<char>)
    requires
        lex_le(a, b),
        lex_le(b, c),
    ensures
        lex_le(a, c),
    decreases a.len(),
{
    if a.len() > 0 && b.len() > 0 && c.len() > 0 {
        if a[0] == b[0] && b[0] == c[0] {
            lemma_lex_trans(a.drop_first(), b.drop_first(), c.drop_first());
        }
    }
}

/// Any two texts are ordered one way or the other.
pub proof fn lemma_lex_total(a: Seq<char>, b: Seq<char>)
    ensures
        lex_le(a, b) || lex_le(b, a),
    decreases a.len(),
{
    if a.len() > 0 && b.len() > 0 {
        if a[0] == b[0] {
            lemma_lex_total(a.drop_first(), b.drop_first());
        } else {
        }
    }
}

/// `lex_le(a, b)` for two character slices.
pub fn lex_le_exec(a: &[char], b: &[char]) -> (r: bool)
    ensures
        r == lex_le(a@, b@),
{
    let mut i: usize = 0;
    assert(a@.skip(0) == a@);
    assert(b@.skip(0) == b@);
    while i < a.len() && i < b.len() && a[i] == b[i]
        invariant
            i <= a.len(),
            i <= b.len(),
            lex_le(a@, b@) == lex_le(a@.skip(i as int), b@.skip(i as int)),
        decreases a.len() - i,
    {
        assert(a@.skip(i as int).drop_first() == a@.skip(i + 1));
        assert(b@.skip(i as int).drop_first() == b@.skip(i + 1));
        i += 1;
    }
    if i == a.len() {
        true
    } else if i == b.len() {
        false
    } else {
        a[i] < b[i]
    }
}

/// Strict lexicographic order, as `<` on `str` compares.
pub open spec fn lex_lt(a: Seq<char>, b: Seq<char>) -> bool {
    lex_le(a, b) && a != b
}

/// `a < b` for two string slices.
pub fn str_lt(a: &str, b: &str) -> (r: bool)
    ensures
        r == lex_lt(a@, b@),
{
    let x = chars_of(a);
    let y = chars_of(b);
    let le = lex_le_exec(x.as_slice(), y.as_slice());
    let ge = lex_le_exec(y.as_slice(), x.as_slice());
    proof {
        if le && ge {
            lemma_lex_antisym(a@, b@);
        }
        if a@ == b@ {
            lemma_lex_refl(a@);
        }
    }
    le && !ge
}

/// Whether two character slices are equal.
pub fn chars_eq(a: &[char], b: &[char]) -> (r: bool)
    ensures
        r == (a@ == b@),
{
    if a.len() != b.len() {
        return false;
    }
    let mut i: usize = 0;
    while i < a.len()
        invariant
            i <= a.len() == b.len(),
            forall|k: int| 0 <= k < i ==> a@[k] == b@[k],
        decreases a.len() - i,
    {
        if a[i] != b[i] {
            return false;
        }
        i += 1;
    }
    assert(a@ =~= b@);
    true
}

/// `a == b` for two string slices.
pub fn str_eq(a: &str, b: &str) -> (r: bool)
    ensures
        r == (a@ == b@),
{
    let x = chars_of(a);
    let y = chars_of(b);
    chars_eq(x.as_slice(), y.as_slice())
}

/// The characters of an optional string.
pub open spec fn opt_view(o: Option<String>) -> Option<Seq<char>> {
    match o {
        Some(s) => Some(s@),
        None => None,
    }
}

/// The parts joined with `sep` between each two, as `[String]::join` does.
pub open spec fn join(parts: Seq<Seq<char>>, sep: Seq<char>) -> Seq<char>
    decreases parts.len(),
{
    if parts.len() == 0 {
        Seq::empty()
    } else if parts.len() == 1 {
        parts[0]
    } else {
        join(parts.drop_last(), sep) + sep + parts.last()
    }
}

/// An occurrence of `pat` in `s` is one in `s` followed by anything.
pub proof fn lemma_occurs_in_longer(s: Seq<char>, t: Seq<char>, pat: Seq<char>, i: int)
    requires
        occurs_at(s, pat, i),
    ensures
        occurs_at(s + t, pat, i),
{
    assert((s + t).subrange(i, i + pat.len()) =~= s.subrange(i, i + pat.len()));
}

/// What occurs in a text that occurs in `s` occurs in `s`.
pub proof fn lemma_contains_trans(s: Seq<char>, a: Seq<char>, pat: Seq<char>)
    requires
        contains_seq(s, a),
        contains_seq(a, pat),
    ensures
        contains_seq(s, pat),
{
    let i = choose|i: int| occurs_at(s, a, i);
    let k = choose|k: int| occurs_at(a, pat, k);
    assert(s.subrange(i + k, i + k + pat.len()) =~= a.subrange(k, k + pat.len()));
    assert(occurs_at(s, pat, i + k));
}

/// Each part occurs in the parts joined.
pub proof fn lemma_join_contains_parts(parts: Seq<Seq<char>>, sep: Seq<char>)
    ensures
        forall|i: int| 0 <= i < parts.len() ==> contains_seq(join(parts, sep), #[trigger] parts[i]),
    decreases parts.len(),
{
    if parts.len() == 1 {
        assert(occurs_at(join(parts, sep), parts[0], 0)) by {
            assert(join(parts, sep).subrange(0, parts[0].len() as int) =~= parts[0]);
        }
    } else if parts.len() > 1 {
        let init = parts.drop_last();
        lemma_join_contains_parts(init, sep);
        let j = join(init, sep);
        let whole = join(parts, sep);
        assert(whole == j + (sep + parts.last())) by {
            assert(j + sep + parts.last() =~= j + (sep + parts.last()));
        }
        assert forall|i: int| 0 <= i < parts.len() implies contains_seq(whole, #[trigger] parts[i]) by {
            if i < parts.len() - 1 {
                assert(init[i] == parts[i]);
                let k = choose|k: int| occurs_at(j, init[i], k);
                lemma_occurs_in_longer(j, sep + parts.last(), parts[i], k);
            } else {
                let at = whole.len() - parts.last().len();
                assert(whole.subrange(at, at + parts.last().len()) =~= parts.last());
                assert(occurs_at(whole, parts[i], at));
            }
        }
    }
}

/// The views of a list of strings.
pub open spec fn views(v: Seq<String>) -> Seq<Seq<char>> {
    v.map_values(|s: String| s@)
}

/// `parts.join(sep)`.
pub fn join_strings(parts: &Vec<String>, sep: &str) -> (r: String)
    ensures
        r@ == join(views(parts@), sep@),
{
    let mut r = String::new();
    let mut i: usize = 0;
    while i < parts.len()
        invariant
            i <= parts.len(),
            r@ == join(views(parts@).take(i as int), sep@),
        decreases parts.len() - i,
    {
        proof {
            let vs = views(parts@);
            assert(vs.take(i + 1).drop_last() =~= vs.take(i as int));
        }
        if i > 0 {
            r.append(sep);
        }
        r.append(parts[i].as_str());
        proof {
            let vs = views(parts@);
            if i == 0 {
                assert(vs.take(1) =~= seq![parts@[0]@]);
                assert(r@ =~= parts@[0]@);
            }
        }
        i += 1;
    }
    assert(views(parts@).take(parts.len() as int) =~= views(parts@));
    r
}

/// A copy of an optional string.
pub fn clone_opt(o: &Option<String>) -> (r: Option<String>)
    ensures
        opt_view(r) == opt_view(*o),
{
    match o {
        Some(s) => Some(s.clone()),
        None => None,
    }
}

/// The trimmed text, when it is not blank.
pub open spec fn trimmed_nonempty(o: Option<String>) -> Option<Seq<char>> {
    match o {
        Some(s) => if trim(s@).len() > 0 {
            Some(trim(s@))
        } else {
            None
        },
        None => None,
    }
}

/// The text itself, untrimmed, when it is not blank.
pub open spec fn non_blank(o: Option<String>) -> Option<Seq<char>> {
    match o {
        Some(s) => if trim(s@).len() > 0 {
            Some(s@)
        } else {
            None
        },
        None => None,
    }
}

/// Whether the option holds text that is not all white space.
pub open spec fn has_text(o: Option<String>) -> bool {
    o matches Some(s) && trim(s@).len() > 0
}

/// The text, or nothing as an empty string.
pub open spec fn or_empty(o: Option<String>) -> Seq<char> {
    match o {
        Some(s) => s@,
        None => Seq::empty(),
    }
}

/// The trimmed text when it is not empty.
pub fn trimmed_nonempty_exec(o: &Option<String>) -> (r: Option<String>)
    ensures
        opt_view(r) == trimmed_nonempty(*o),
{
    match o {
        Some(s) => {
            let t = trim_str(s.as_str());
            if t.as_str().is_empty() {
                None
            } else {
                Some(t)
            }
        },
        None => None,
    }
}

/// The text unchanged when it is not blank (white space only).
pub fn non_blank_exec(o: &Option<String>) -> (r: Option<String>)
    ensures
        opt_view(r) == non_blank(*o),
{
    match o {
        Some(s) => {
            let t = trim_str(s.as_str());
            if t.as_str().is_empty() {
                None
            } else {
                Some(s.clone())
            }
        },
        None => None,
    }
}

/// The index of the last `c` in `s`.
pub open spec fn last_index_of(s: Seq<char>, c: char) -> Option<int> {
    if exists|i: int| 0 <= i < s.len() && s[i] == c {
        Some(choose|i: int| 0 <= i < s.len() && s[i] == c && forall|k: int| i < k < s.len() ==> s[k] != c)
    } else {
        None
    }
}

/// A first match found by index is the first index of the character.
pub proof fn lemma_find_char_is_first(s: Seq<char>, c: char, i: int)
    requires
        0 <= i < s.len(),
        s[i] == c,
        forall|k: int| 0 <= k < i ==> s[k] != c,
    ensures
        first_index_of(s, c) == Some(i),
{
    assert(exists|j: int| 0 <= j < s.len() && s[j] == c);
    let j = choose|j: int| 0 <= j < s.len() && s[j] == c && forall|k: int| 0 <= k < j ==> s[k] != c;
    if j < i {
        assert(s[j] != c);
    } else if j > i {
        assert(s[i] != c);
    }
}

/// A last match found by index is the last index of the character.
pub proof fn lemma_rfind_char_is_last(s: Seq<char>, c: char, i: int)
    requires
        0 <= i < s.len(),
        s[i] == c,
        forall|k: int| i < k < s.len() ==> s[k] != c,
    ensures
        last_index_of(s, c) == Some(i),
{
    assert(exists|j: int| 0 <= j < s.len() && s[j] == c);
    let j = choose|j: int| 0 <= j < s.len() && s[j] == c && forall|k: int| j < k < s.len() ==> s[k] != c;
    if j < i {
        assert(s[i] != c);
    } else if j > i {
        assert(s[j] != c);
    }
}

/// What `text.trim()[start..=end]` keeps, from the first `open` to the last
/// `close`, when both occur; the trimmed text otherwise.
pub open spec fn json_span(text: Seq<char>, open: char, close: char) -> Seq<char> {
    let t = trim(text);
    match (first_index_of(t, open), last_index_of(t, close)) {
        (Some(s), Some(e)) => t.subrange(s, e + 1),
        _ => t,
    }
}

/// The slice `start..=end` exists: the last `close` does not come before the
/// character preceding the first `open`.
pub open spec fn json_span_defined(text: Seq<char>, open: char, close: char) -> bool {
    let t = trim(text);
    match (first_index_of(t, open), last_index_of(t, close)) {
        (Some(s), Some(e)) => s <= e + 1,
        _ => true,
    }
}

fn span_indices(t: &[char], open: char, close: char) -> (r: Option<(usize, usize)>)
    ensures
        match r {
            Some(p) => first_index_of(t@, open) == Some(p.0 as int) && last_index_of(t@, close) == Some(p.1 as int)
                && p.1 < t.len(),
            None => first_index_of(t@, open) is None || last_index_of(t@, close) is None,
        },
{
    match find_char(t, open) {
        Some(s) => {
            proof {
                lemma_find_char_is_first(t@, open, s as int);
            }
            match rfind_char(t, close) {
                Some(e) => {
                    proof {
                        lemma_rfind_char_is_last(t@, close, e as int);
                    }
                    Some((s, e))
                },
                None => None,
            }
        },
        None => None,
    }
}

/// Whether the JSON span of `text` can be taken.
pub fn json_span_is_defined(text: &str, open: char, close: char) -> (r: bool)
    ensures
        r == json_span_defined(text@, open, close),
{
    let v = chars_of(text);
    let t = trim_chars(v.as_slice());
    match span_indices(t.as_slice(), open, close) {
        Some((s, e)) => s <= e + 1,
        None => true,
    }
}

/// The part of a model's answer from the first `open` to the last `close`.
pub fn json_span_of(text: &str, open: char, close: char) -> (r: String)
    requires
        json_span_defined(text@, open, close),
    ensures
        r@ == json_span(text@, open, close),
{
    let v = chars_of(text);
    let t = trim_chars(v.as_slice());
    match span_indices(t.as_slice(), open, close) {
        Some((s, e)) => {
            let p = slice_chars(t.as_slice(), s, e + 1);
            string_of(p.as_slice())
        },
        None => string_of(t.as_slice()),
    }
}

/// The JSON object in a model's answer: from its first `{` to its last `}`.
pub fn extract_json_object(text: &str) -> (r: String)
    requires
        json_span_defined(text@, '{', '}'),
    ensures
        r@ == json_span(text@, '{', '}'),
{
    json_span_of(text, '{', '}')
}

/// The JSON array in a model's answer: from its first `[` to its last `]`.
pub fn extract_json_array(text: &str) -> (r: String)
    requires
        json_span_defined(text@, '[', ']'),
    ensures
        r@ == json_span(text@, '[', ']'),
{
    json_span_of(text, '[', ']')
}

/// The first index at or after `from` where `pat` occurs in `s`.
#[verifier::opaque]
pub open spec fn first_occurrence(s: Seq<char>, pat: Seq<char>, from: int) -> Option<int> {
    if exists|i: int| from <= i && occurs_at(s, pat, i) {
        Some(choose|i: int| from <= i && occurs_at(s, pat, i) && forall|k: int| from <= k < i ==> !occurs_at(s, pat, k))
    } else {
        None
    }
}

/// A search result agrees with the first occurrence.
pub proof fn lemma_first_occurrence(s: Seq<char>, pat: Seq<char>, from: int, r: Option<usize>)
    requires
        match r {
            Some(i) => from <= i && occurs_at(s, pat, i as int) && forall|k: int| from <= k < i ==> !occurs_at(s, pat, k),
            None => forall|k: int| from <= k ==> !occurs_at(s, pat, k),
        },
    ensures
        first_occurrence(s, pat, from) == match r {
            Some(i) => Some(i as int),
            None => None::<int>,
        },
{
    reveal(first_occurrence);
    if let Some(i) = r {
        assert(exists|j: int| from <= j && occurs_at(s, pat, j));
        let j = choose|j: int| from <= j && occurs_at(s, pat, j) && forall|k: int| from <= k < j ==> !occurs_at(s, pat, k);
        if j < i {
            assert(!occurs_at(s, pat, j));
        } else if j > i {
            assert(!occurs_at(s, pat, i as int));
        }
    }
}

/// `find_from` with its result tied to `first_occurrence`.
pub fn first_occurrence_exec(s: &[char], pat: &[char], from: usize) -> (r: Option<usize>)
    requires
        from <= s.len(),
    ensures
        first_occurrence(s@, pat@, from as int) == match r {
            Some(i) => Some(i as int),
            None => None::<int>,
        },
        r matches Some(i) ==> from <= i && i + pat@.len() <= s.len(),
{
    let r = find_from(s, pat, from);
    proof {
        lemma_first_occurrence(s@, pat@, from as int, r);
    }
    r
}

} // verus!
