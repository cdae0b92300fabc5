//! Character-level text helpers shared by every surface: the whitespace
//! rule that `trim` and the draft scanners use, UTF-16 decoding for the
//! composer's caret arithmetic, decimal rendering for badges, and ordering of
//! strings the way `String`'s `Ord` orders them.
use vstd::prelude::*;

verus! {

/// The Unicode `White_Space` property, which is exactly what
/// `char::is_whitespace` (and so `str::trim`) tests.
pub open spec fn white_space_code(c: int) -> bool {
    ||| 0x9 <= c <= 0xD
    ||| c == 0x20
    ||| c == 0x85
    ||| c == 0xA0
    ||| c == 0x1680
    ||| 0x2000 <= c <= 0x200A
    ||| c == 0x2028
    ||| c == 0x2029
    ||| c == 0x202F
    ||| c == 0x205F
    ||| c == 0x3000
}

pub open spec fn is_ws(c: char) -> bool {
    white_space_code(c as int)
}

/// Whether a code point (or a UTF-16 code unit widened to one) is whitespace.
pub fn is_white_space_code(c: u32) -> (r: bool)
    ensures
        r == white_space_code(c as int),
{
    (0x9 <= c && c <= 0xD) || c == 0x20 || c == 0x85 || c == 0xA0 || c == 0x1680 || (0x2000 <= c
        && c <= 0x200A) || c == 0x2028 || c == 0x2029 || c == 0x202F || c == 0x205F || c == 0x3000
}

pub fn is_whitespace(c: char) -> (r: bool)
    ensures
        r == is_ws(c),
{
    is_white_space_code(c as u32)
}

/// Every character is whitespace (the empty string included).
pub open spec fn all_ws(s: Seq<char>) -> bool {
    forall|i: int| 0 <= i < s.len() ==> is_ws(#[trigger] s[i])
}

/// `s` with leading whitespace removed.
pub open spec fn trim_start(s: Seq<char>) -> Seq<char>
    decreases s.len(),
{
    if s.len() > 0 && is_ws(s[0]) {
        trim_start(s.drop_first())
    } else {
        s
    }
}

/// `s` with trailing whitespace removed.
pub open spec fn trim_end(s: Seq<char>) -> Seq<char>
    decreases s.len(),
{
    if s.len() > 0 && is_ws(s.last()) {
        trim_end(s.drop_last())
    } else {
        s
    }
}

/// What `str::trim` returns.
pub open spec fn trimmed(s: Seq<char>) -> Seq<char> {
    trim_end(trim_start(s))
}

/// `trim_start` of a suffix that starts after a run of whitespace.
proof fn lemma_trim_start_skip(s: Seq<char>, i: int)
    requires
        0 <= i <= s.len(),
        forall|j: int| 0 <= j < i ==> is_ws(#[trigger] s[j]),
    ensures
        trim_start(s) == trim_start(s.subrange(i, s.len() as int)),
    decreases i,
{
    if i > 0 {
        assert(s.drop_first() =~= s.subrange(1, s.len() as int));
        lemma_trim_start_skip(s.drop_first(), i - 1);
        assert(s.drop_first().subrange(i - 1, s.drop_first().len() as int) =~= s.subrange(
            i,
            s.len() as int,
        ));
    } else {
        assert(s.subrange(0, s.len() as int) =~= s);
    }
}

proof fn lemma_trim_end_skip(s: Seq<char>, k: int)
    requires
        0 <= k <= s.len(),
        forall|j: int| k <= j < s.len() ==> is_ws(#[trigger] s[j]),
    ensures
        trim_end(s) == trim_end(s.subrange(0, k)),
    decreases s.len() - k,
{
    if k < s.len() {
        assert(s.drop_last() =~= s.subrange(0, s.len() - 1));
        lemma_trim_end_skip(s.drop_last(), k);
        assert(s.drop_last().subrange(0, k) =~= s.subrange(0, k));
    } else {
        assert(s.subrange(0, k) =~= s);
    }
}

/// Trimming leaves nothing exactly when every character is whitespace.
pub proof fn lemma_trimmed_empty(s: Seq<char>)
    ensures
        (trimmed(s).len() == 0) == all_ws(s),
    decreases s.len(),
{
    if s.len() > 0 && is_ws(s[0]) {
        lemma_trimmed_empty(s.drop_first());
        if all_ws(s.drop_first()) {
            assert forall|i: int| 0 <= i < s.len() implies is_ws(#[trigger] s[i]) by {
                if i > 0 {
                    assert(s[i] == s.drop_first()[i - 1]);
                }
            }
        }
        if all_ws(s) {
            assert forall|i: int| 0 <= i < s.drop_first().len() implies is_ws(
                #[trigger] s.drop_first()[i],
            ) by {
                assert(s.drop_first()[i] == s[i + 1]);
            }
        }
    } else if s.len() > 0 {
        // trim_start(s) == s, whose first character survives trim_end.
        lemma_trim_end_keeps_first(s);
    }
}

proof fn lemma_trim_end_keeps_first(s: Seq<char>)
    requires
        s.len() > 0,
        !is_ws(s[0]),
    ensures
        trim_end(s).len() > 0,
    decreases s.len(),
{
    if is_ws(s.last()) {
        if s.len() == 1 {
            assert(s.last() == s[0]);
        } else {
            assert(s.drop_last()[0] == s[0]);
            lemma_trim_end_keeps_first(s.drop_last());
        }
    }
}

/// The characters of `s`, in order.
pub fn chars_of(s: &str) -> (v: Vec<char>)
    ensures
        v@ == s@,
{
    let n = s.unicode_len();
    let mut v: Vec<char> = Vec::new();
    let mut i: usize = 0;
    while i < n
        invariant
            n == s@.len(),
            i <= n,
            v@ == s@.subrange(0, i as int),
        decreases n - i,
    {
        v.push(s.get_char(i));
        i += 1;
        assert(v@ =~= s@.subrange(0, i as int));
    }
    assert(s@.subrange(0, n as int) =~= s@);
    v
}

/// `String::push`: append one character.
#[verifier::external_body]
pub(crate) fn push_char(s: &mut String, c: char)
    ensures
        final(s)@ == old(s)@.push(c),
{
    s.push(c);
}

/// The string made of the characters `cs[from..to]`.
pub fn string_of(cs: &[char], from: usize, to: usize) -> (r: String)
    requires
        from <= to <= cs@.len(),
    ensures
        r@ == cs@.subrange(from as int, to as int),
{
    let mut r = String::new();
    let mut i = from;
    while i < to
        invariant
            from <= i <= to <= cs@.len(),
            r@ == cs@.subrange(from as int, i as int),
        decreases to - i,
    {
        push_char(&mut r, cs[i]);
        i += 1;
        assert(r@ =~= cs@.subrange(from as int, i as int));
    }
    r
}

/// `str::trim`, as an owned string.
pub fn trim(s: &str) -> (r: String)
    ensures
        r@ == trimmed(s@),
{
    let cs = chars_of(s);
    let n = cs.len();
    let mut a: usize = 0;
    while a < n && is_whitespace(cs[a])
        invariant
            n == cs@.len(),
            a <= n,
            forall|j: int| 0 <= j < a ==> is_ws(#[trigger] cs@[j]),
        decreases n - a,
    {
        a += 1;
    }
    proof {
        lemma_trim_start_skip(cs@, a as int);
        let rest = cs@.subrange(a as int, n as int);
        if a < n {
            assert(rest[0] == cs@[a as int]);
        }
        assert(trim_start(rest) == rest);
    }
    let mut b: usize = n;
    while b > a && is_whitespace(cs[b - 1])
        invariant
            n == cs@.len(),
            a <= b <= n,
            forall|j: int| b <= j < n ==> is_ws(#[trigger] cs@[j]),
        decreases b,
    {
        b -= 1;
    }
    proof {
        let rest = cs@.subrange(a as int, n as int);
        assert forall|j: int| (b - a) <= j < rest.len() implies is_ws(#[trigger] rest[j]) by {
            assert(rest[j] == cs@[a + j]);
        }
        lemma_trim_end_skip(rest, b - a);
        let kept = rest.subrange(0, b - a);
        assert(kept =~= cs@.subrange(a as int, b as int));
        if b > a {
            assert(kept.last() == cs@[b - 1]);
        }
        assert(trim_end(kept) == kept);
    }
    string_of(cs.as_slice(), a, b)
}

/// Whether `str::trim` would leave nothing.
pub fn is_blank(s: &str) -> (r: bool)
    ensures
        r == all_ws(s@),
        r == (trimmed(s@).len() == 0),
{
    proof {
        lemma_trimmed_empty(s@);
    }
    let n = s.unicode_len();
    let mut i: usize = 0;
    while i < n
        invariant
            n == s@.len(),
            i <= n,
            forall|j: int| 0 <= j < i ==> is_ws(#[trigger] s@[j]),
        decreases n - i,
    {
        let c = s.get_char(i);
        if !is_whitespace(c) {
            assert(!is_ws(s@[i as int]));
            assert(!all_ws(s@));
            proof {
                lemma_trimmed_empty(s@);
            }
            return false;
        }
        i += 1;
    }
    true
}

/// Whether two strings hold the same characters.
pub fn str_eq(a: &str, b: &str) -> (r: bool)
    ensures
        r == (a@ == b@),
{
    compare_str(a, b) == 0
}

/// The lowercase mapping `str::to_lowercase` applies (Unicode case mapping,
/// context-sensitive for a final sigma).
pub uninterp spec fn lowercase(s: Seq<char>) -> Seq<char>;

/// `str::to_lowercase`.
#[verifier::external_body]
pub(crate) fn to_lowercase(s: &str) -> (r: String)
    ensures
        r@ == lowercase(s@),
{
    s.to_lowercase()
}

/// `char::from_u32`: the scalar value with that code, if there is one.
#[verifier::external_body]
pub(crate) fn char_from_u32(c: u32) -> (r: Option<char>)
    ensures
        (c <= 0x10FFFF && !(0xD800 <= c <= 0xDFFF)) ==> r == Some(c as char),
        !(c <= 0x10FFFF && !(0xD800 <= c <= 0xDFFF)) ==> r is None,
{
    char::from_u32(c)
}

pub open spec fn is_high_surrogate(u: u16) -> bool {
    0xD800 <= u <= 0xDBFF
}

pub open spec fn is_low_surrogate(u: u16) -> bool {
    0xDC00 <= u <= 0xDFFF
}

pub open spec fn is_surrogate(u: u16) -> bool {
    0xD800 <= u <= 0xDFFF
}

/// The scalar a surrogate pair encodes.
pub open spec fn pair_code(hi: u16, lo: u16) -> u32 {
    (0x10000 + (hi - 0xD800) * 0x400 + (lo - 0xDC00)) as u32
}

/// UTF-16 decoding in which every unpaired surrogate becomes U+FFFD — what
/// `String::from_utf16_lossy` returns.
pub open spec fn utf16_lossy(u: Seq<u16>) -> Seq<char>
    decreases u.len(),
{
    if u.len() == 0 {
        Seq::empty()
    } else if u.len() >= 2 && is_high_surrogate(u[0]) && is_low_surrogate(u[1]) {
        seq![pair_code(u[0], u[1]) as char] + utf16_lossy(u.subrange(2, u.len() as int))
    } else if is_surrogate(u[0]) {
        seq!['\u{FFFD}'] + utf16_lossy(u.drop_first())
    } else {
        seq![u[0] as char] + utf16_lossy(u.drop_first())
    }
}

proof fn lemma_utf16_lossy_step(u: Seq<u16>, i: int, k: int)
    requires
        0 <= i < i + k <= u.len(),
        k == 1 || k == 2,
        k == 2 <==> (i + 1 < u.len() && is_high_surrogate(u[i]) && is_low_surrogate(u[i + 1])),
    ensures
        utf16_lossy(u.subrange(i, u.len() as int)) == (if k == 2 {
            seq![pair_code(u[i], u[i + 1]) as char]
        } else if is_surrogate(u[i]) {
            seq!['\u{FFFD}']
        } else {
            seq![u[i] as char]
        }) + utf16_lossy(u.subrange(i + k, u.len() as int)),
{
    let s = u.subrange(i, u.len() as int);
    assert(s[0] == u[i]);
    if s.len() >= 2 {
        assert(s[1] == u[i + 1]);
    }
    if k == 2 {
        assert(s.subrange(2, s.len() as int) =~= u.subrange(i + 2, u.len() as int));
    }
    assert(s.drop_first() =~= u.subrange(i + 1, u.len() as int));
}

/// `String::from_utf16_lossy(&units[from..to])`.
pub fn from_utf16_lossy(units: &[u16], from: usize, to: usize) -> (r: String)
    requires
        from <= to <= units@.len(),
    ensures
        r@ == utf16_lossy(units@.subrange(from as int, to as int)),
{
    let ghost u = units@.subrange(from as int, to as int);
    let mut r = String::new();
    let mut i = from;
    assert(u.subrange(0, u.len() as int) =~= u);
    while i < to
        invariant
            from <= i <= to <= units@.len(),
            u == units@.subrange(from as int, to as int),
            utf16_lossy(u) == r@ + utf16_lossy(u.subrange(i - from, u.len() as int)),
        decreases to - i,
    {
        let x = units[i];
        let k: usize;
        if i + 1 < to && 0xD800 <= x && x <= 0xDBFF && 0xDC00 <= units[i + 1] && units[i + 1]
            <= 0xDFFF {
            let lo = units[i + 1];
            let code: u32 = 0x10000 + ((x - 0xD800) as u32) * 0x400 + ((lo - 0xDC00) as u32);
            let c = char_from_u32(code);
            push_char(&mut r, c.unwrap());
            k = 2;
        } else if 0xD800 <= x && x <= 0xDFFF {
            push_char(&mut r, '\u{FFFD}');
            k = 1;
        } else {
            let c = char_from_u32(x as u32);
            push_char(&mut r, c.unwrap());
            k = 1;
        }
        proof {
            let j = i - from;
            assert(u[j] == units@[i as int]);
            if j + 1 < u.len() {
                assert(u[j + 1] == units@[i + 1]);
            }
            lemma_utf16_lossy_step(u, j, k as int);
        }
        i += k;
        assert(r@ + utf16_lossy(u.subrange(i - from, u.len() as int)) =~= utf16_lossy(u));
    }
    assert(u.subrange(to - from, u.len() as int) =~= Seq::<u16>::empty());
    assert(utf16_lossy(Seq::<u16>::empty()) =~= Seq::<char>::empty());
    assert(r@ =~= utf16_lossy(u));
    r
}

pub open spec fn digit_char(d: nat) -> char {
    (('0' as u32) + d) as char
}

/// The decimal rendering `usize`'s `Display` produces.
pub open spec fn decimal(n: nat) -> Seq<char>
    decreases n,
{
    if n < 10 {
        seq![digit_char(n)]
    } else {
        decimal(n / 10).push(digit_char(n % 10))
    }
}

/// `n.to_string()` for a `usize`.
pub fn decimal_string(n: usize) -> (r: String)
    ensures
        r@ == decimal(n as nat),
    decreases n,
{
    let d = (n % 10) as u32;
    let c = char_from_u32(0x30 + d).unwrap();
    if n < 10 {
        let mut r = String::new();
        push_char(&mut r, c);
        assert(r@ =~= seq![digit_char(n as nat)]);
        r
    } else {
        let mut r = decimal_string(n / 10);
        push_char(&mut r, c);
        r
    }
}

/// `a < b` as `String`'s `Ord` decides it: lexicographically by scalar value,
/// which is the order of their UTF-8 bytes.
pub open spec fn lex_lt(a: Seq<char>, b: Seq<char>) -> bool
    decreases a.len(),
{
    if a.len() == 0 {
        b.len() > 0
    } else if b.len() == 0 {
        false
    } else if a[0] != b[0] {
        (a[0] as int) < (b[0] as int)
    } else {
        lex_lt(a.drop_first(), b.drop_first())
    }
}

pub proof fn lemma_lex_irreflexive(a: Seq<char>)
    ensures
        !lex_lt(a, a),
    decreases a.len(),
{
    if a.len() > 0 {
        lemma_lex_irreflexive(a.drop_first());
    }
}

pub proof fn lemma_lex_total(a: Seq<char>, b: Seq<char>)
    ensures
        a == b || lex_lt(a, b) || lex_lt(b, a),
    decreases a.len(),
{
    if a.len() > 0 && b.len() > 0 && a[0] == b[0] {
        lemma_lex_total(a.drop_first(), b.drop_first());
        if a.drop_first() == b.drop_first() {
            assert(a =~= seq![a[0]] + a.drop_first());
            assert(b =~= seq![b[0]] + b.drop_first());
        }
    } else if a.len() == 0 && b.len() == 0 {
        assert(a =~= b);
    } else if a.len() > 0 && b.len() > 0 {
        assert((a[0] as int) != (b[0] as int));
    }
}

pub proof fn lemma_lex_asymmetric(a: Seq<char>, b: Seq<char>)
    ensures
        lex_lt(a, b) ==> !lex_lt(b, a),
    decreases a.len(),
{
    if a.len() > 0 && b.len() > 0 && a[0] == b[0] {
        lemma_lex_asymmetric(a.drop_first(), b.drop_first());
    }
}

pub proof fn lemma_lex_transitive(a: Seq<char>, b: Seq<char>, c: Seq<char>)
    ensures
        lex_lt(a, b) && lex_lt(b, c) ==> lex_lt(a, c),
    decreases a.len(),
{
    if a.len() > 0 && b.len() > 0 && c.len() > 0 && a[0] == b[0] && b[0] == c[0] {
        lemma_lex_transitive(a.drop_first(), b.drop_first(), c.drop_first());
    }
}

/// Compare two strings: `Less`, `Equal` or `Greater` as -1, 0, 1.
pub fn compare_str(a: &str, b: &str) -> (r: i8)
    ensures
        r == 0 <==> a@ == b@,
        r < 0 <==> lex_lt(a@, b@),
        r > 0 <==> lex_lt(b@, a@),
{
    let x = chars_of(a);
    let y = chars_of(b);
    let mut i: usize = 0;
    proof {
        lemma_lex_irreflexive(a@);
        lemma_lex_asymmetric(a@, b@);
        lemma_lex_asymmetric(b@, a@);
        lemma_lex_total(a@, b@);
        assert(a@.subrange(0, a@.len() as int) =~= a@);
        assert(b@.subrange(0, b@.len() as int) =~= b@);
        assert(x@.subrange(0, 0) =~= y@.subrange(0, 0));
    }
    while i < x.len() && i < y.len() && x[i] == y[i]
        invariant
            x@ == a@,
            y@ == b@,
            i <= x@.len(),
            i <= y@.len(),
            x@.subrange(0, i as int) == y@.subrange(0, i as int),
            lex_lt(a@, b@) == lex_lt(a@.subrange(i as int, a@.len() as int), b@.subrange(
                i as int,
                b@.len() as int,
            )),
            lex_lt(b@, a@) == lex_lt(b@.subrange(i as int, b@.len() as int), a@.subrange(
                i as int,
                a@.len() as int,
            )),
        decreases x.len() - i,
    {
        proof {
            let sa = a@.subrange(i as int, a@.len() as int);
            let sb = b@.subrange(i as int, b@.len() as int);
            assert(sa[0] == x@[i as int]);
            assert(sb[0] == y@[i as int]);
            assert(sa.drop_first() =~= a@.subrange(i + 1, a@.len() as int));
            assert(sb.drop_first() =~= b@.subrange(i + 1, b@.len() as int));
        }
        i += 1;
        assert(x@.subrange(0, i as int) =~= y@.subrange(0, i as int)) by {
            assert(x@.subrange(0, i as int) =~= x@.subrange(0, i - 1).push(x@[i - 1]));
            assert(y@.subrange(0, i as int) =~= y@.subrange(0, i - 1).push(y@[i - 1]));
        }
    }
    let ghost sa = a@.subrange(i as int, a@.len() as int);
    let ghost sb = b@.subrange(i as int, b@.len() as int);
    proof {
        lemma_lex_irreflexive(a@);
        lemma_lex_asymmetric(a@, b@);
        lemma_lex_asymmetric(b@, a@);
        lemma_lex_total(a@, b@);
    }
    if i < x.len() && i < y.len() {
        assert(sa[0] == x@[i as int] && sb[0] == y@[i as int]);
        assert(sa[0] != sb[0]);
        assert(lex_lt(sa, sb) == ((sa[0] as int) < (sb[0] as int)));
        assert(lex_lt(sb, sa) == ((sb[0] as int) < (sa[0] as int)));
        let cx: char = x[i];
        let cy: char = y[i];
        if cx < cy {
            -1
        } else {
            1
        }
    } else if i < y.len() {
        // a is a proper prefix of b
        assert(x@ =~= x@.subrange(0, i as int));
        assert(sa.len() == 0);
        -1
    } else if i < x.len() {
        assert(y@ =~= y@.subrange(0, i as int));
        assert(sb.len() == 0);
        1
    } else {
        assert(x@ =~= x@.subrange(0, i as int));
        assert(y@ =~= y@.subrange(0, i as int));
        0
    }
}

} // verus!
