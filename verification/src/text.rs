use vstd::prelude::*;

verus! {

broadcast use vstd::string::axiom_spec_iter;

// ---------------------------------------------------------------------------
// Character classes
// ---------------------------------------------------------------------------

/// Unicode `White_Space`, the class that `char::is_whitespace` and `str::trim` use.
pub open spec fn is_whitespace(c: char) -> bool {
    let u = c as u32;
    ||| 0x9 <= u <= 0xD
    ||| u == 0x20
    ||| u == 0x85
    ||| u == 0xA0
    ||| u == 0x1680
    ||| 0x2000 <= u <= 0x200A
    ||| u == 0x2028
    ||| u == 0x2029
    ||| u == 0x202F
    ||| u == 0x205F
    ||| u == 0x3000
}

/// ASCII control characters: U+0000 to U+001F and U+007F.
pub open spec fn is_ascii_control(c: char) -> bool {
    (c as u32) < 0x20 || (c as u32) == 0x7F
}

/// ASCII upper-case letters map to lower case; everything else is kept.
pub open spec fn ascii_lower(c: char) -> char {
    if 0x41 <= (c as u32) <= 0x5A {
        ((c as u32) + 32) as char
    } else {
        c
    }
}

pub fn is_whitespace_char(c: char) -> (b: bool)
    ensures
        b == is_whitespace(c),
{
    let u = c as u32;
    (0x9 <= u && u <= 0xD) || u == 0x20 || u == 0x85 || u == 0xA0 || u == 0x1680 || (0x2000 <= u
        && u <= 0x200A) || u == 0x2028 || u == 0x2029 || u == 0x202F || u == 0x205F || u == 0x3000
}

pub fn is_ascii_control_char(c: char) -> (b: bool)
    ensures
        b == is_ascii_control(c),
{
    let u = c as u32;
    u < 0x20 || u == 0x7F
}

pub fn ascii_lower_char(c: char) -> (r: char)
    ensures
        r == ascii_lower(c),
{
    let u = c as u32;
    if 0x41 <= u && u <= 0x5A {
        let b = (u + 32) as u8;
        b as char
    } else {
        c
    }
}

// ---------------------------------------------------------------------------
// Strings and character vectors
// ---------------------------------------------------------------------------

/// Appends one character at the end of a string.
/// Trusted: `String::push`, which std documents as appending the given char to the end.
#[verifier::external_body]
pub(crate) fn push_char(s: &mut String, c: char)
    ensures
        final(s)@ == old(s)@.push(c),
{
    s.push(c);
}

/// The characters of a string slice, in order.
pub fn chars_of(s: &str) -> (v: Vec<char>)
    ensures
        v@ == s@,
{
    let mut v: Vec<char> = Vec::new();
    for c in it: s.chars()
        invariant
            it.seq() == s@,
            v@ == it.seq().take(it.index() as int),
    {
        v.push(c);
    }
    v
}

/// A string holding exactly the given characters.
pub fn string_of(v: &Vec<char>) -> (s: String)
    ensures
        s@ == v@,
{
    let mut s = String::new();
    let mut i: usize = 0;
    while i < v.len()
        invariant
            i <= v.len(),
            s@ == v@.take(i as int),
        decreases v.len() - i,
    {
        push_char(&mut s, v[i]);
        assert(v@.take(i as int).push(v@[i as int]) =~= v@.take(i + 1));
        i = i + 1;
    }
    assert(v@.take(v.len() as int) =~= v@);
    s
}

/// Appends all characters of `t` to `s`.
pub fn push_str(s: &mut String, t: &str)
    ensures
        final(s)@ == old(s)@ + t@,
{
    let v = chars_of(t);
    let ghost start = s@;
    let mut i: usize = 0;
    while i < v.len()
        invariant
            i <= v.len(),
            v@ == t@,
            s@ == start + v@.take(i as int),
        decreases v.len() - i,
    {
        push_char(s, v[i]);
        assert(start + v@.take(i as int).push(v@[i as int]) =~= start + v@.take(i + 1));
        i = i + 1;
    }
    assert(v@.take(v.len() as int) =~= v@);
}

/// The concatenation of two strings.
pub fn concat_strings(a: &str, b: &str) -> (r: String)
    ensures
        r@ == a@ + b@,
{
    let mut r = String::new();
    push_str(&mut r, a);
    push_str(&mut r, b);
    assert(Seq::<char>::empty() + a@ + b@ =~= a@ + b@);
    r
}

/// A copy of `v[lo..hi]`.
pub fn copy_range(v: &Vec<char>, lo: usize, hi: usize) -> (r: Vec<char>)
    requires
        lo <= hi <= v.len(),
    ensures
        r@ == v@.subrange(lo as int, hi as int),
{
    let mut r: Vec<char> = Vec::new();
    let mut i = lo;
    while i < hi
        invariant
            lo <= i <= hi <= v.len(),
            r@ == v@.subrange(lo as int, i as int),
        decreases hi - i,
    {
        r.push(v[i]);
        assert(v@.subrange(lo as int, i as int).push(v@[i as int]) =~= v@.subrange(
            lo as int,
            i + 1,
        ));
        i = i + 1;
    }
    r
}

// ---------------------------------------------------------------------------
// Trimming
// ---------------------------------------------------------------------------

pub open spec fn trim_start(s: Seq<char>) -> Seq<char>
    decreases s.len(),
{
    if s.len() > 0 && is_whitespace(s[0]) {
        trim_start(s.drop_first())
    } else {
        s
    }
}

pub open spec fn trim_end(s: Seq<char>) -> Seq<char>
    decreases s.len(),
{
    if s.len() > 0 && is_whitespace(s.last()) {
        trim_end(s.drop_last())
    } else {
        s
    }
}

/// What `str::trim` gives back: the text without leading and trailing whitespace.
pub open spec fn trim(s: Seq<char>) -> Seq<char> {
    trim_end(trim_start(s))
}

proof fn lemma_trim_start_skip(s: Seq<char>, a: int)
    requires
        0 <= a <= s.len(),
        forall|i: int| 0 <= i < a ==> is_whitespace(#[trigger] s[i]),
        a == s.len() || !is_whitespace(s[a]),
    ensures
        trim_start(s) == s.skip(a),
    decreases a,
{
    if a == 0 {
        assert(s.skip(0) =~= s);
    } else {
        let t = s.drop_first();
        assert forall|i: int| 0 <= i < a - 1 implies is_whitespace(#[trigger] t[i]) by {
            assert(t[i] == s[i + 1]);
        }
        lemma_trim_start_skip(t, a - 1);
        assert(t.skip(a - 1) =~= s.skip(a));
    }
}

proof fn lemma_trim_end_take(s: Seq<char>, b: int)
    requires
        0 <= b <= s.len(),
        forall|i: int| b <= i < s.len() ==> is_whitespace(#[trigger] s[i]),
        b == 0 || !is_whitespace(s[b - 1]),
    ensures
        trim_end(s) == s.take(b),
    decreases s.len() - b,
{
    if b == s.len() {
        assert(s.take(b) =~= s);
    } else {
        let t = s.drop_last();
        assert forall|i: int| b <= i < t.len() implies is_whitespace(#[trigger] t[i]) by {
            assert(t[i] == s[i]);
        }
        lemma_trim_end_take(t, b);
        assert(t.take(b) =~= s.take(b));
    }
}

/// Trimming a character vector, as `str::trim` does.
pub fn trim_chars(v: &Vec<char>) -> (r: Vec<char>)
    ensures
        r@ == trim(v@),
{
    let n = v.len();
    let mut a: usize = 0;
    while a < n && is_whitespace_char(v[a])
        invariant
            a <= n == v.len(),
            forall|i: int| 0 <= i < a ==> is_whitespace(#[trigger] v@[i]),
        decreases n - a,
    {
        a = a + 1;
    }
    proof {
        lemma_trim_start_skip(v@, a as int);
    }
    let mut b: usize = n;
    while b > a && is_whitespace_char(v[b - 1])
        invariant
            a <= b <= n == v.len(),
            forall|i: int| b <= i < n ==> is_whitespace(#[trigger] v@[i]),
        decreases b,
    {
        b = b - 1;
    }
    proof {
        let t = v@.skip(a as int);
        assert forall|i: int| b - a <= i < t.len() implies is_whitespace(#[trigger] t[i]) by {
            assert(t[i] == v@[i + a]);
        }
        lemma_trim_end_take(t, b - a);
        assert(t.take(b - a) =~= v@.subrange(a as int, b as int));
    }
    copy_range(v, a, b)
}

/// `str::trim`, returning an owned string.
pub fn trim_str(s: &str) -> (r: String)
    ensures
        r@ == trim(s@),
{
    let v = chars_of(s);
    let t = trim_chars(&v);
    string_of(&t)
}

// ---------------------------------------------------------------------------
// ASCII case-insensitive comparison
// ---------------------------------------------------------------------------

/// What `str::eq_ignore_ascii_case` decides.
pub open spec fn eq_ignore_ascii_case(a: Seq<char>, b: Seq<char>) -> bool {
    &&& a.len() == b.len()
    &&& forall|i: int| 0 <= i < a.len() ==> ascii_lower(#[trigger] a[i]) == ascii_lower(b[i])
}

pub fn eq_ignore_ascii_case_chars(a: &Vec<char>, b: &Vec<char>) -> (r: bool)
    ensures
        r == eq_ignore_ascii_case(a@, b@),
{
    if a.len() != b.len() {
        return false;
    }
    let mut i: usize = 0;
    while i < a.len()
        invariant
            i <= a.len() == b.len(),
            forall|j: int| 0 <= j < i ==> ascii_lower(#[trigger] a@[j]) == ascii_lower(b@[j]),
        decreases a.len() - i,
    {
        if ascii_lower_char(a[i]) != ascii_lower_char(b[i]) {
            return false;
        }
        i = i + 1;
    }
    true
}

pub fn eq_ignore_ascii_case_str(a: &str, b: &str) -> (r: bool)
    ensures
        r == eq_ignore_ascii_case(a@, b@),
{
    let va = chars_of(a);
    let vb = chars_of(b);
    eq_ignore_ascii_case_chars(&va, &vb)
}

// ---------------------------------------------------------------------------
// Decimal numbers
// ---------------------------------------------------------------------------

pub open spec fn digit_char(d: nat) -> char {
    (48 + d) as char
}

pub open spec fn is_digit(c: char) -> bool {
    48 <= (c as u32) <= 57
}

pub open spec fn digit_value(c: char) -> nat {
    ((c as u32) - 48) as nat
}

/// The decimal notation of `n`, as `format!("{}", n)` writes it.
pub open spec fn decimal(n: nat) -> Seq<char>
    decreases n,
{
    if n < 10 {
        seq![digit_char(n)]
    } else {
        decimal(n / 10).push(digit_char(n % 10))
    }
}

/// The value of a non-empty run of digits.
pub open spec fn digits_value(s: Seq<char>) -> nat
    decreases s.len(),
{
    if s.len() == 0 {
        0
    } else {
        digits_value(s.drop_last()) * 10 + digit_value(s.last())
    }
}

pub open spec fn all_digits(s: Seq<char>) -> bool {
    forall|i: int| 0 <= i < s.len() ==> is_digit(#[trigger] s[i])
}

/// What `str::parse::<usize>` accepts and gives back: an optional `+`, then one or more
/// ASCII digits whose value fits in a `usize`.
pub open spec fn parse_usize(s: Seq<char>) -> Option<nat> {
    let d = if s.len() > 0 && s[0] == '+' {
        s.drop_first()
    } else {
        s
    };
    if d.len() > 0 && all_digits(d) && digits_value(d) <= usize::MAX {
        Some(digits_value(d))
    } else {
        None
    }
}

pub fn digit_char_of(d: usize) -> (c: char)
    requires
        d < 10,
    ensures
        c == digit_char(d as nat),
{
    let b = (48 + d) as u8;
    b as char
}

proof fn lemma_decimal_digits(n: nat)
    ensures
        decimal(n).len() >= 1,
        all_digits(decimal(n)),
        digits_value(decimal(n)) == n,
        decimal(n)[0] != '+',
    decreases n,
{
    assert((digit_char(n % 10) as u32) == 48 + n % 10);
    if n < 10 {
        assert(decimal(n).drop_last() =~= Seq::<char>::empty());
        assert(digits_value(decimal(n)) == digits_value(decimal(n).drop_last()) * 10
            + digit_value(decimal(n).last()));
    } else {
        lemma_decimal_digits(n / 10);
        let s = decimal(n);
        assert(s.drop_last() =~= decimal(n / 10));
        assert(digits_value(s) == digits_value(s.drop_last()) * 10 + digit_value(s.last()));
        assert(digits_value(s) == (n / 10) * 10 + n % 10);
        assert forall|i: int| 0 <= i < s.len() implies is_digit(#[trigger] s[i]) by {
            if i < s.len() - 1 {
                assert(s[i] == decimal(n / 10)[i]);
            }
        }
    }
}

/// Decimal notation reads back: `parse_usize(decimal(n)) == Some(n)`.
pub proof fn lemma_parse_decimal(n: usize)
    ensures
        parse_usize(decimal(n as nat)) == Some(n as nat),
{
    lemma_decimal_digits(n as nat);
}

/// `format!("{}", n)` for a `usize`.
pub fn decimal_string(n: usize) -> (s: String)
    ensures
        s@ == decimal(n as nat),
{
    // digits from least to most significant
    let mut rev: Vec<char> = Vec::new();
    let mut m = n;
    loop
        invariant_except_break
            decimal(n as nat) =~= decimal(m as nat) + rev@.reverse(),
        ensures
            decimal(n as nat) =~= rev@.reverse(),
        decreases m,
    {
        if m < 10 {
            let c = digit_char_of(m);
            proof {
                assert(decimal(m as nat) =~= seq![c]);
                assert(seq![c] + rev@.reverse() =~= rev@.push(c).reverse());
            }
            rev.push(c);
            break;
        } else {
            let c = digit_char_of(m % 10);
            proof {
                assert(decimal(m as nat) =~= decimal((m / 10) as nat).push(c));
                assert(decimal((m / 10) as nat).push(c) + rev@.reverse() =~= decimal(
                    (m / 10) as nat,
                ) + rev@.push(c).reverse());
            }
            rev.push(c);
            m = m / 10;
        }
    }
    let mut out: Vec<char> = Vec::new();
    let mut i = rev.len();
    while i > 0
        invariant
            i <= rev.len(),
            out@ =~= rev@.subrange(i as int, rev.len() as int).reverse(),
        decreases i,
    {
        i = i - 1;
        out.push(rev[i]);
        assert(rev@.subrange(i as int, rev.len() as int).reverse() =~= rev@.subrange(
            i + 1,
            rev.len() as int,
        ).reverse().push(rev@[i as int]));
    }
    assert(rev@.subrange(0, rev.len() as int) =~= rev@);
    string_of(&out)
}

proof fn lemma_digits_value_prefix(d: Seq<char>, i: int)
    requires
        0 <= i <= d.len(),
    ensures
        digits_value(d.take(i)) <= digits_value(d),
    decreases d.len() - i,
{
    if i < d.len() {
        lemma_digits_value_prefix(d, i + 1);
        assert(d.take(i + 1).drop_last() =~= d.take(i));
    } else {
        assert(d.take(i) =~= d);
    }
}

/// `str::parse::<usize>`, on a character vector; `None` stands for every parse error.
pub fn parse_usize_chars(v: &Vec<char>) -> (r: Option<usize>)
    ensures
        match r {
            Some(x) => parse_usize(v@) == Some(x as nat),
            None => parse_usize(v@) is None,
        },
{
    let start: usize = if v.len() > 0 && v[0] == '+' {
        1
    } else {
        0
    };
    let ghost d = if v@.len() > 0 && v@[0] == '+' {
        v@.drop_first()
    } else {
        v@
    };
    assert(d =~= v@.skip(start as int));
    if start == v.len() {
        return None;
    }
    let mut acc: usize = 0;
    let mut i = start;
    while i < v.len()
        invariant
            start <= i <= v.len(),
            d =~= v@.skip(start as int),
            d == (if v@.len() > 0 && v@[0] == '+' {
                v@.drop_first()
            } else {
                v@
            }),
            all_digits(d.take(i - start)),
            acc as nat == digits_value(d.take(i - start)),
        decreases v.len() - i,
    {
        let c = v[i];
        let u = c as u32;
        if u < 48 || u > 57 {
            assert(d[i - start] == c);
            assert(!is_digit(d[i - start]));
            return None;
        }
        let dv = (u - 48) as usize;
        proof {
            assert(d.take(i + 1 - start).drop_last() =~= d.take(i - start));
            assert(d.take(i + 1 - start).last() == c);
        }
        if acc > (usize::MAX - dv) / 10 {
            proof {
                assert(acc * 10 + dv > usize::MAX) by (nonlinear_arith)
                    requires
                        acc > (usize::MAX - dv) / 10,
                        dv <= 9,
                ;
                if all_digits(d) {
                    lemma_digits_value_prefix(d, i + 1 - start);
                }
            }
            return None;
        }
        assert(acc * 10 + dv <= usize::MAX) by (nonlinear_arith)
            requires
                acc <= (usize::MAX - dv) / 10,
                dv <= 9,
        ;
        acc = acc * 10 + dv;
        i = i + 1;
    }
    assert(d.take(i - start) =~= d);
    Some(acc)
}

pub open spec fn knob_prefix() -> Seq<char> {
    seq!['K', 'n', 'o', 'b', ' ']
}

/// The name a knob has when nothing has named it: `format!("Knob {}", index + 1)`.
pub open spec fn default_knob_name(index: nat) -> Seq<char> {
    knob_prefix() + decimal(index + 1)
}

/// `format!("Knob {}", index + 1)`.
pub fn default_knob_name_string(index: usize) -> (s: String)
    requires
        index < usize::MAX,
    ensures
        s@ == default_knob_name(index as nat),
{
    let mut s = String::new();
    push_char(&mut s, 'K');
    push_char(&mut s, 'n');
    push_char(&mut s, 'o');
    push_char(&mut s, 'b');
    push_char(&mut s, ' ');
    assert(s@ =~= knob_prefix());
    let digits = decimal_string(index + 1);
    push_str(&mut s, digits.as_str());
    s
}

proof fn lemma_trim_start_shape(s: Seq<char>)
    ensures
        trim_start(s).len() == 0 || !is_whitespace(trim_start(s)[0]),
        trim_start(s) == s.skip(s.len() - trim_start(s).len()),
        trim_start(s).len() <= s.len(),
    decreases s.len(),
{
    if s.len() > 0 && is_whitespace(s[0]) {
        lemma_trim_start_shape(s.drop_first());
        assert(s.drop_first().skip(s.drop_first().len() - trim_start(s).len()) =~= s.skip(
            s.len() - trim_start(s).len(),
        ));
    } else {
        assert(s.skip(0) =~= s);
    }
}

proof fn lemma_trim_end_shape(s: Seq<char>)
    ensures
        trim_end(s).len() == 0 || !is_whitespace(trim_end(s).last()),
        trim_end(s) == s.take(trim_end(s).len() as int),
        trim_end(s).len() <= s.len(),
    decreases s.len(),
{
    if s.len() > 0 && is_whitespace(s.last()) {
        lemma_trim_end_shape(s.drop_last());
        assert(s.drop_last().take(trim_end(s).len() as int) =~= s.take(trim_end(s).len() as int));
    } else {
        assert(s.take(s.len() as int) =~= s);
    }
}

/// A trimmed text neither starts nor ends with whitespace.
pub proof fn lemma_trim_shape(s: Seq<char>)
    ensures
        trim(s).len() == 0 || (!is_whitespace(trim(s)[0]) && !is_whitespace(trim(s).last())),
        trim(s).len() <= s.len(),
{
    let u = trim_start(s);
    lemma_trim_start_shape(s);
    lemma_trim_end_shape(u);
    if trim(s).len() > 0 {
        assert(trim(s)[0] == u[0]);
    }
}

/// Trimming leaves alone a text that neither starts nor ends with whitespace.
pub proof fn lemma_trim_fixed(t: Seq<char>)
    requires
        t.len() == 0 || (!is_whitespace(t[0]) && !is_whitespace(t.last())),
    ensures
        trim(t) == t,
{
}

/// Trimming twice is trimming once.
pub proof fn lemma_trim_idempotent(s: Seq<char>)
    ensures
        trim(trim(s)) == trim(s),
{
    lemma_trim_shape(s);
    lemma_trim_fixed(trim(s));
}

/// A default knob name has no surrounding whitespace and is not empty.
pub proof fn lemma_default_knob_name_trimmed(index: nat)
    ensures
        trim(default_knob_name(index)) == default_knob_name(index),
        default_knob_name(index).len() > 0,
{
    let n = default_knob_name(index);
    lemma_decimal_digits(index + 1);
    let d = decimal(index + 1);
    assert(n.last() == d.last());
    assert(is_digit(d[d.len() - 1]));
    assert(n[0] == 'K');
    lemma_trim_fixed(n);
}

/// Trimming keeps a contiguous part of the text.
pub proof fn lemma_trim_subrange(s: Seq<char>)
    ensures
        exists|lo: int, hi: int| 0 <= lo <= hi <= s.len() && trim(s) == s.subrange(lo, hi),
{
    lemma_trim_start_shape(s);
    let u = trim_start(s);
    lemma_trim_end_shape(u);
    let lo = s.len() - u.len();
    let hi = lo + trim(s).len();
    assert(trim(s) =~= s.subrange(lo, hi));
}

/// After `Knob ` come only digits.
pub proof fn lemma_default_knob_name_digits(index: nat)
    ensures
        forall|i: int|
            5 <= i < default_knob_name(index).len() ==> is_digit(#[trigger] default_knob_name(
                index,
            )[i]),
        default_knob_name(index).take(5) == knob_prefix(),
{
    lemma_decimal_digits(index + 1);
    let n = default_knob_name(index);
    assert forall|i: int| 5 <= i < n.len() implies is_digit(#[trigger] n[i]) by {
        assert(n[i] == decimal(index + 1)[i - 5]);
    }
    assert(n.take(5) =~= knob_prefix());
}

// ---------------------------------------------------------------------------
// Ordering of texts
// ---------------------------------------------------------------------------

/// The order of `String`: lexicographic by character. (UTF-8 keeps code point order, so
/// comparing bytes and comparing characters agree.)
pub open spec fn text_lt(a: Seq<char>, b: Seq<char>) -> bool
    decreases a.len(),
{
    if a.len() == 0 {
        b.len() > 0
    } else if b.len() == 0 {
        false
    } else if a[0] != b[0] {
        (a[0] as u32) < (b[0] as u32)
    } else {
        text_lt(a.drop_first(), b.drop_first())
    }
}

pub proof fn lemma_text_lt_irreflexive(a: Seq<char>)
    ensures
        !text_lt(a, a),
    decreases a.len(),
{
    if a.len() > 0 {
        lemma_text_lt_irreflexive(a.drop_first());
    }
}

pub proof fn lemma_text_lt_transitive(a: Seq<char>, b: Seq<char>, c: Seq<char>)
    requires
        text_lt(a, b),
        text_lt(b, c),
    ensures
        text_lt(a, c),
    decreases a.len(),
{
    if a.len() > 0 && b.len() > 0 && c.len() > 0 && a[0] == b[0] && b[0] == c[0] {
        lemma_text_lt_transitive(a.drop_first(), b.drop_first(), c.drop_first());
    }
}

pub proof fn lemma_text_lt_total(a: Seq<char>, b: Seq<char>)
    requires
        a != b,
    ensures
        text_lt(a, b) || text_lt(b, a),
    decreases a.len(),
{
    if a.len() == 0 && b.len() == 0 {
        assert(a =~= b);
    }
    if a.len() > 0 && b.len() > 0 {
        if a[0] == b[0] {
            if a.drop_first() == b.drop_first() {
                assert(a =~= seq![a[0]] + a.drop_first());
                assert(b =~= seq![b[0]] + b.drop_first());
                assert(false);
            } else {
                lemma_text_lt_total(a.drop_first(), b.drop_first());
            }
        } else {
            vstd::utf8::char_u32_cast(a[0], a[0] as u32);
            vstd::utf8::char_u32_cast(b[0], b[0] as u32);
            assert((a[0] as u32) != (b[0] as u32));
        }
    }
}

pub proof fn lemma_text_lt_asymmetric(a: Seq<char>, b: Seq<char>)
    requires
        text_lt(a, b),
    ensures
        !text_lt(b, a),
{
    if text_lt(b, a) {
        lemma_text_lt_transitive(a, b, a);
        lemma_text_lt_irreflexive(a);
    }
}

/// Whether `a` sorts before `b`, as `a < b` on strings decides.
pub fn text_less(a: &Vec<char>, b: &Vec<char>) -> (r: bool)
    ensures
        r == text_lt(a@, b@),
{
    let mut i: usize = 0;
    assert(a@.skip(0) =~= a@ && b@.skip(0) =~= b@);
    while i < a.len() && i < b.len() && a[i] == b[i]
        invariant
            i <= a.len(),
            i <= b.len(),
            text_lt(a@, b@) == text_lt(a@.skip(i as int), b@.skip(i as int)),
        decreases a.len() - i,
    {
        assert(a@.skip(i as int).drop_first() =~= a@.skip(i + 1));
        assert(b@.skip(i as int).drop_first() =~= b@.skip(i + 1));
        i = i + 1;
    }
    if i == a.len() {
        i < b.len()
    } else if i == b.len() {
        false
    } else {
        (a[i] as u32) < (b[i] as u32)
    }
}

/// The texts that a list of strings holds.
pub open spec fn texts(v: Seq<String>) -> Seq<Seq<char>> {
    v.map_values(|s: String| s@)
}

/// Each text sorts strictly before the next: sorted, and nothing twice.
pub open spec fn strictly_sorted(s: Seq<Seq<char>>) -> bool {
    forall|i: int, j: int| 0 <= i < j < s.len() ==> text_lt(#[trigger] s[i], #[trigger] s[j])
}

/// `v` with `x` added at its place in the order, unless `v` holds it already.
pub fn insert_sorted(v: &Vec<String>, x: String) -> (r: Vec<String>)
    requires
        strictly_sorted(texts(v@)),
    ensures
        strictly_sorted(texts(r@)),
        forall|t: Seq<char>| texts(r@).contains(t) <==> (texts(v@).contains(t) || t == x@),
{
    let xc = chars_of(x.as_str());
    let ghost tv = texts(v@);
    let mut p: usize = 0;
    while p < v.len() && text_less(&chars_of(v[p].as_str()), &xc)
        invariant
            p <= v.len(),
            tv == texts(v@),
            xc@ == x@,
            forall|i: int| 0 <= i < p ==> text_lt(#[trigger] tv[i], x@),
        decreases v.len() - p,
    {
        p = p + 1;
    }
    if p < v.len() && v[p] == x {
        let mut r: Vec<String> = Vec::new();
        let mut i: usize = 0;
        while i < v.len()
            invariant
                i <= v.len(),
                r@ == v@.take(i as int),
            decreases v.len() - i,
        {
            r.push(v[i].clone());
            assert(r@ =~= v@.take(i + 1));
            i = i + 1;
        }
        assert(r@ =~= v@);
        proof {
            assert forall|t: Seq<char>| texts(r@).contains(t) <==> (texts(v@).contains(t) || t
                == x@) by {
                if t == x@ {
                    assert(texts(v@)[p as int] == x@);
                }
            }
        }
        return r;
    }
    proof {
        // everything from p on sorts after x
        assert forall|j: int| p <= j < tv.len() implies text_lt(x@, #[trigger] tv[j]) by {
            assert(tv[p as int] != x@);
            lemma_text_lt_total(tv[p as int], x@);
            if j > p {
                lemma_text_lt_transitive(x@, tv[p as int], tv[j]);
            }
        }
    }
    let ghost target = v@.insert(p as int, x);
    let mut r: Vec<String> = Vec::new();
    let mut i: usize = 0;
    while i < p
        invariant
            i <= p <= v.len(),
            r@ == v@.take(i as int),
        decreases p - i,
    {
        r.push(v[i].clone());
        assert(r@ =~= v@.take(i + 1));
        i = i + 1;
    }
    r.push(x);
    while i < v.len()
        invariant
            p <= i <= v.len(),
            r@ == v@.take(p as int).push(target[p as int]) + v@.subrange(p as int, i as int),
            target == v@.insert(p as int, target[p as int]),
        decreases v.len() - i,
    {
        r.push(v[i].clone());
        assert(r@ =~= v@.take(p as int).push(target[p as int]) + v@.subrange(p as int, i + 1));
        i = i + 1;
    }
    assert(r@ =~= target);
    proof {
        let tr = texts(r@);
        assert(tr[p as int] == x@);
        assert forall|a: int, b: int| 0 <= a < b < tr.len() implies text_lt(
            #[trigger] tr[a],
            #[trigger] tr[b],
        ) by {
            if a < p && b < p {
                assert(tr[a] == tv[a] && tr[b] == tv[b]);
            } else if a < p && b == p {
                assert(tr[a] == tv[a]);
            } else if a < p {
                assert(tr[a] == tv[a] && tr[b] == tv[b - 1]);
                lemma_text_lt_transitive(tv[a], x@, tv[b - 1]);
            } else if a == p {
                assert(tr[b] == tv[b - 1]);
            } else {
                assert(tr[a] == tv[a - 1] && tr[b] == tv[b - 1]);
            }
        }
        assert forall|t: Seq<char>| tr.contains(t) <==> (tv.contains(t) || t == x@) by {
            if tr.contains(t) {
                let k = choose|k: int| 0 <= k < tr.len() && tr[k] == t;
                if k < p {
                    assert(tv[k] == t);
                } else if k > p {
                    assert(tv[k - 1] == t);
                }
            }
            if tv.contains(t) {
                let k = choose|k: int| 0 <= k < tv.len() && tv[k] == t;
                if k < p {
                    assert(tr[k] == t);
                } else {
                    assert(tr[k + 1] == t);
                }
            }
        }
    }
    r
}

/// A copy of `v` with the entry at `index` replaced.
pub fn replaced_string(v: &Vec<String>, index: usize, s: String) -> (r: Vec<String>)
    requires
        index < v.len(),
    ensures
        r@ == v@.update(index as int, s),
{
    let mut r: Vec<String> = Vec::new();
    let mut s = Some(s);
    let ghost s0 = s->0;
    let mut i: usize = 0;
    while i < v.len()
        invariant
            i <= v.len(),
            index < v.len(),
            r@ == v@.update(index as int, s0).take(i as int),
            i <= index ==> s == Some(s0),
        decreases v.len() - i,
    {
        if i == index {
            let taken = s.take();
            match taken {
                Some(x) => r.push(x),
                None => r.push(String::new()),
            }
        } else {
            r.push(v[i].clone());
        }
        assert(r@ =~= v@.update(index as int, s0).take(i + 1));
        i = i + 1;
    }
    assert(v@.update(index as int, s0).take(v.len() as int) =~= v@.update(index as int, s0));
    r
}

/// The texts of `list` with `sep` between each two, as `[..].join(sep)` writes them.
pub open spec fn join_texts(list: Seq<Seq<char>>, sep: Seq<char>) -> Seq<char>
    decreases list.len(),
{
    if list.len() == 0 {
        Seq::<char>::empty()
    } else if list.len() == 1 {
        list[0]
    } else {
        join_texts(list.drop_last(), sep) + sep + list.last()
    }
}

/// `list.join(sep)`.
pub fn join_strings(list: &Vec<String>, sep: &str) -> (r: String)
    ensures
        r@ == join_texts(texts(list@), sep@),
{
    let mut r = String::new();
    let mut i: usize = 0;
    while i < list.len()
        invariant
            i <= list.len(),
            r@ == join_texts(texts(list@).take(i as int), sep@),
        decreases list.len() - i,
    {
        assert(texts(list@).take(i + 1).drop_last() =~= texts(list@).take(i as int));
        if i != 0 {
            push_str(&mut r, sep);
        } else {
            assert(texts(list@).take(1) =~= seq![list@[0]@]);
        }
        push_str(&mut r, list[i].as_str());
        i = i + 1;
    }
    assert(texts(list@).take(list.len() as int) =~= texts(list@));
    r
}

/// Whether two texts are equal.
pub fn str_eq(a: &str, b: &str) -> (r: bool)
    ensures
        r == (a@ == b@),
{
    let va = chars_of(a);
    let vb = chars_of(b);
    if va.len() != vb.len() {
        return false;
    }
    let mut i: usize = 0;
    while i < va.len()
        invariant
            i <= va.len() == vb.len(),
            va@ == a@,
            vb@ == b@,
            forall|j: int| 0 <= j < i ==> #[trigger] va@[j] == vb@[j],
        decreases va.len() - i,
    {
        if va[i] != vb[i] {
            return false;
        }
        i = i + 1;
    }
    assert(va@ =~= vb@);
    true
}

/// A string holding the given text.
pub fn to_string(s: &str) -> (r: String)
    ensures
        r@ == s@,
{
    let mut r = String::new();
    push_str(&mut r, s);
    r
}

} // verus!
