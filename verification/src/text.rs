//! Plain text: comparison, concatenation, trimming, decimal numbers.
use vstd::prelude::*;
use vstd::utf8::{encode_utf8, encode_utf8_decode_utf8, is_ascii_chars};

verus! {

/// `String::push` of std appends one character to the end of the text.
pub assume_specification[ String::push ](s: &mut String, c: char)
    ensures
        final(s)@ == old(s)@.push(c),
;

/// The contents of an optional text.
pub open spec fn opt_text(o: Option<String>) -> Option<Seq<char>> {
    match o {
        Some(s) => Some(s@),
        None => None,
    }
}

/// The contents of a list of texts.
pub open spec fn texts(v: Seq<String>) -> Seq<Seq<char>> {
    v.map_values(|s: String| s@)
}

/// Whether the two texts hold the same characters.
pub fn same(a: &str, b: &str) -> (r: bool)
    ensures
        r == (a@ == b@),
{
    let x = a.as_bytes();
    let y = b.as_bytes();
    if x.len() != y.len() {
        return false;
    }
    let mut i: usize = 0;
    while i < x.len()
        invariant
            x@ == encode_utf8(a@),
            y@ == encode_utf8(b@),
            x@.len() == y@.len(),
            i <= x@.len(),
            forall|k: int| 0 <= k < i ==> x@[k] == y@[k],
        decreases x@.len() - i,
    {
        if x[i] != y[i] {
            return false;
        }
        i = i + 1;
    }
    proof {
        assert(x@ =~= y@);
        encode_utf8_decode_utf8(a@);
        encode_utf8_decode_utf8(b@);
    }
    true
}

/// Whether an optional text is present and equal to the given one.
pub fn is_text(o: &Option<String>, s: &str) -> (r: bool)
    ensures
        r == (opt_text(*o) == Some(s@)),
{
    match o {
        Some(t) => same(t.as_str(), s),
        None => false,
    }
}

/// Whether the list holds the text.
pub fn contains_text(v: &Vec<String>, s: &str) -> (r: bool)
    ensures
        r == texts(v@).contains(s@),
{
    let mut i: usize = 0;
    while i < v.len()
        invariant
            i <= v@.len(),
            forall|k: int| 0 <= k < i ==> texts(v@)[k] != s@,
        decreases v@.len() - i,
    {
        if same(v[i].as_str(), s) {
            assert(texts(v@)[i as int] == s@);
            return true;
        }
        i = i + 1;
    }
    false
}

/// The two texts, one after the other.
pub fn concat2(a: &str, b: &str) -> (r: String)
    ensures
        r@ == a@ + b@,
{
    let mut r = a.to_owned();
    r.append(b);
    r
}

/// The three texts, one after the other.
pub fn concat3(a: &str, b: &str, c: &str) -> (r: String)
    ensures
        r@ == a@ + b@ + c@,
{
    let mut r = a.to_owned();
    r.append(b);
    r.append(c);
    r
}

/// The characters of a text.
pub fn chars_of(s: &str) -> (r: Vec<char>)
    ensures
        r@ == s@,
{
    let mut v: Vec<char> = Vec::new();
    for c in it: s.chars()
        invariant
            it.seq() == s@,
            v@ == s@.take(it.index() as int),
    {
        assert(s@.take(it.index() as int).push(c) =~= s@.take(it.index() as int + 1));
        v.push(c);
    }
    assert(s@.take(s@.len() as int) =~= s@);
    v
}

/// The text made of the characters from `from` up to, and without, `to`.
pub fn text_of(v: &Vec<char>, from: usize, to: usize) -> (r: String)
    requires
        from <= to <= v@.len(),
    ensures
        r@ == v@.subrange(from as int, to as int),
{
    let mut r = String::new();
    let mut i: usize = from;
    while i < to
        invariant
            from <= i <= to <= v@.len(),
            r@ == v@.subrange(from as int, i as int),
        decreases to - i,
    {
        assert(v@.subrange(from as int, i as int).push(v@[i as int]) =~= v@.subrange(
            from as int,
            i as int + 1,
        ));
        r.push(v[i]);
        i = i + 1;
    }
    r
}

/// The first `n` characters, or all of them where there are fewer.
pub open spec fn prefix_of(s: Seq<char>, n: int) -> Seq<char> {
    if s.len() <= n {
        s
    } else {
        s.take(n)
    }
}

/// The first `n` characters, or all of them where there are fewer.
pub fn take_chars(s: &str, n: usize) -> (r: String)
    ensures
        r@ == prefix_of(s@, n as int),
{
    let v = chars_of(s);
    let end: usize = if v.len() < n {
        v.len()
    } else {
        n
    };
    assert(v@.subrange(0, end as int) =~= prefix_of(s@, n as int));
    text_of(&v, 0, end)
}

/// Whether the text begins with the prefix.
pub open spec fn begins_with(s: Seq<char>, prefix: Seq<char>) -> bool {
    prefix.is_prefix_of(s)
}

/// Whether the text begins with the prefix.
pub fn starts_with(s: &str, prefix: &str) -> (r: bool)
    ensures
        r == begins_with(s@, prefix@),
{
    let v = chars_of(s);
    let p = chars_of(prefix);
    if v.len() < p.len() {
        return false;
    }
    let mut i: usize = 0;
    while i < p.len()
        invariant
            v@ == s@,
            p@ == prefix@,
            p@.len() <= v@.len(),
            i <= p@.len(),
            forall|k: int| 0 <= k < i ==> v@[k] == p@[k],
        decreases p@.len() - i,
    {
        if v[i] != p[i] {
            return false;
        }
        i = i + 1;
    }
    assert(s@.subrange(0, prefix@.len() as int) =~= prefix@);
    true
}

/// What follows the prefix, where the text begins with it.
pub fn strip_prefix(s: &str, prefix: &str) -> (r: Option<String>)
    ensures
        begins_with(s@, prefix@) ==> opt_text(r) == Some(s@.skip(prefix@.len() as int)),
        !begins_with(s@, prefix@) ==> r is None,
{
    if starts_with(s, prefix) {
        let v = chars_of(s);
        let p = chars_of(prefix);
        assert(v@.subrange(p@.len() as int, v@.len() as int) =~= s@.skip(prefix@.len() as int));
        Some(text_of(&v, p.len(), v.len()))
    } else {
        None
    }
}

/// The text without the slashes at its end.
pub open spec fn without_trailing_slashes(s: Seq<char>) -> Seq<char>
    decreases s.len(),
{
    if s.len() > 0 && s.last() == '/' {
        without_trailing_slashes(s.drop_last())
    } else {
        s
    }
}

/// The text without the slashes at its end.
pub fn trim_end_slashes(s: &str) -> (r: String)
    ensures
        r@ == without_trailing_slashes(s@),
{
    let v = chars_of(s);
    let mut end: usize = v.len();
    assert(v@.subrange(0, v@.len() as int) =~= s@);
    while end > 0 && v[end - 1] == '/'
        invariant
            end <= v@.len(),
            v@ == s@,
            without_trailing_slashes(v@.subrange(0, end as int)) == without_trailing_slashes(s@),
        decreases end,
    {
        assert(v@.subrange(0, end as int).drop_last() =~= v@.subrange(0, end as int - 1));
        end = end - 1;
    }
    text_of(&v, 0, end)
}

/// A copy of the texts.
pub(crate) fn copy_texts(v: &Vec<String>) -> (r: Vec<String>)
    ensures
        r@ == v@,
{
    let mut out: Vec<String> = Vec::new();
    let mut i: usize = 0;
    while i < v.len()
        invariant
            i <= v@.len(),
            out@ == v@.take(i as int),
        decreases v@.len() - i,
    {
        assert(v@.take(i as int).push(v@[i as int]) =~= v@.take(i as int + 1));
        out.push(v[i].clone());
        i = i + 1;
    }
    assert(v@.take(v@.len() as int) =~= v@);
    out
}

/// What `char::is_whitespace` of std answers beyond ASCII: the White_Space property of Unicode.
pub uninterp spec fn whitespace(c: char) -> bool;

/// Whether the character is white space.
pub open spec fn blank(c: char) -> bool {
    if (c as u32) < 128 {
        c == ' ' || (9 <= c as u32 && c as u32 <= 13)
    } else {
        whitespace(c)
    }
}

/// `char::is_whitespace` of std. Of ASCII, exactly the space and the characters from tab to
/// carriage return are white space; beyond ASCII the answer has only its name.
#[verifier::external_body]
fn is_whitespace(c: char) -> (r: bool)
    ensures
        r == if (c as u32) < 128 {
            c == ' ' || (9 <= c as u32 && c as u32 <= 13)
        } else {
            whitespace(c)
        },
{
    c.is_whitespace()
}

/// What `char::is_alphanumeric` of std answers beyond ASCII: a letter or a number of Unicode.
pub uninterp spec fn alphanumeric(c: char) -> bool;

/// Whether the character is an ASCII letter or digit.
pub open spec fn ascii_alphanumeric(c: char) -> bool {
    ('0' <= c && c <= '9') || ('A' <= c && c <= 'Z') || ('a' <= c && c <= 'z')
}

/// Whether the character is a letter or a number.
pub open spec fn letter_or_number(c: char) -> bool {
    if (c as u32) < 128 {
        ascii_alphanumeric(c)
    } else {
        alphanumeric(c)
    }
}

/// `char::is_alphanumeric` of std. Of ASCII, exactly the letters and the digits are
/// alphanumeric; beyond ASCII the answer has only its name.
#[verifier::external_body]
pub(crate) fn is_alphanumeric(c: char) -> (r: bool)
    ensures
        r == if (c as u32) < 128 {
            ascii_alphanumeric(c)
        } else {
            alphanumeric(c)
        },
{
    c.is_alphanumeric()
}

/// The text without white space at its start.
pub open spec fn trimmed_start(s: Seq<char>) -> Seq<char>
    decreases s.len(),
{
    if s.len() > 0 && blank(s[0]) {
        trimmed_start(s.skip(1))
    } else {
        s
    }
}

/// The text without white space at its end.
pub open spec fn trimmed_end(s: Seq<char>) -> Seq<char>
    decreases s.len(),
{
    if s.len() > 0 && blank(s.last()) {
        trimmed_end(s.drop_last())
    } else {
        s
    }
}

/// The text without white space at either end.
pub open spec fn trimmed(s: Seq<char>) -> Seq<char> {
    trimmed_end(trimmed_start(s))
}

/// The text without white space at either end.
pub fn trim(s: &str) -> (r: String)
    ensures
        r@ == trimmed(s@),
{
    let v = chars_of(s);
    let mut start: usize = 0;
    assert(v@.skip(0) =~= s@);
    while start < v.len()
        invariant_except_break
            trimmed_start(v@.skip(start as int)) == trimmed_start(s@),
        invariant
            start <= v@.len(),
            v@ == s@,
        ensures
            start <= v@.len(),
            v@.skip(start as int) == trimmed_start(s@),
        decreases v@.len() - start,
    {
        assert(v@.skip(start as int)[0] == v@[start as int]);
        assert(v@.skip(start as int).skip(1) =~= v@.skip(start as int + 1));
        if !is_whitespace(v[start]) {
            break;
        }
        start = start + 1;
    }
    let mut end: usize = v.len();
    assert(v@.subrange(start as int, end as int) =~= v@.skip(start as int));
    while start < end
        invariant_except_break
            trimmed_end(v@.subrange(start as int, end as int)) == trimmed(s@),
        invariant
            start <= end <= v@.len(),
        ensures
            start <= end <= v@.len(),
            v@.subrange(start as int, end as int) == trimmed(s@),
        decreases end - start,
    {
        assert(v@.subrange(start as int, end as int).last() == v@[end - 1]);
        assert(v@.subrange(start as int, end as int).drop_last() =~= v@.subrange(
            start as int,
            end as int - 1,
        ));
        if !is_whitespace(v[end - 1]) {
            break;
        }
        end = end - 1;
    }
    text_of(&v, start, end)
}

/// What `str::to_lowercase` of std returns of a text that is not all ASCII.
pub uninterp spec fn lowercase(s: Seq<char>) -> Seq<char>;

/// The lower case of an ASCII letter; any other character is kept.
pub open spec fn ascii_lower(c: char) -> char {
    if 'A' <= c && c <= 'Z' {
        (c as u32 + 32) as char
    } else {
        c
    }
}

/// The text in lower case.
pub open spec fn lowered(s: Seq<char>) -> Seq<char> {
    if is_ascii_chars(s) {
        s.map_values(|c: char| ascii_lower(c))
    } else {
        lowercase(s)
    }
}

/// `str::to_lowercase` of std. A text of ASCII characters comes back with its letters in
/// lower case and the rest unchanged; of any other text the result has only its name.
#[verifier::external_body]
pub(crate) fn to_lowercase(s: &str) -> (r: String)
    ensures
        r@ == if is_ascii_chars(s@) {
            s@.map_values(|c: char| ascii_lower(c))
        } else {
            lowercase(s@)
        },
{
    s.to_lowercase()
}

/// Whether `a` comes before `b` in the order of their code points.
pub open spec fn text_lt(a: Seq<char>, b: Seq<char>) -> bool
    decreases a.len(),
{
    if b.len() == 0 {
        false
    } else if a.len() == 0 {
        true
    } else if a[0] == b[0] {
        text_lt(a.skip(1), b.skip(1))
    } else {
        a[0] < b[0]
    }
}

/// No text comes before itself.
pub proof fn lemma_text_lt_irreflexive(a: Seq<char>)
    ensures
        !text_lt(a, a),
    decreases a.len(),
{
    if a.len() > 0 {
        lemma_text_lt_irreflexive(a.skip(1));
    }
}

/// What comes before a text comes before everything after that text.
pub proof fn lemma_text_lt_transitive(a: Seq<char>, b: Seq<char>, c: Seq<char>)
    requires
        text_lt(a, b),
        text_lt(b, c),
    ensures
        text_lt(a, c),
    decreases a.len(),
{
    if a.len() > 0 && a[0] == b[0] && b[0] == c[0] {
        lemma_text_lt_transitive(a.skip(1), b.skip(1), c.skip(1));
    }
}

/// Of two texts that differ one comes before the other.
pub proof fn lemma_text_lt_total(a: Seq<char>, b: Seq<char>)
    ensures
        text_lt(a, b) || text_lt(b, a) || a == b,
    decreases a.len(),
{
    if a.len() == 0 || b.len() == 0 {
        if a.len() == b.len() {
            assert(a =~= b);
        }
    } else if a[0] == b[0] {
        lemma_text_lt_total(a.skip(1), b.skip(1));
        if a.skip(1) == b.skip(1) {
            assert(a =~= seq![a[0]] + a.skip(1));
            assert(b =~= seq![b[0]] + b.skip(1));
        }
    }
}

/// Whether `a` comes before `b` in the order of their code points.
pub fn less(a: &str, b: &str) -> (r: bool)
    ensures
        r == text_lt(a@, b@),
{
    let x = chars_of(a);
    let y = chars_of(b);
    let mut i: usize = 0;
    assert(x@.skip(0) =~= a@);
    assert(y@.skip(0) =~= b@);
    while i < x.len() && i < y.len()
        invariant
            i <= x@.len(),
            i <= y@.len(),
            text_lt(a@, b@) == text_lt(x@.skip(i as int), y@.skip(i as int)),
        decreases x@.len() - i,
    {
        assert(x@.skip(i as int).skip(1) =~= x@.skip(i as int + 1));
        assert(y@.skip(i as int).skip(1) =~= y@.skip(i as int + 1));
        if x[i] != y[i] {
            return x[i] < y[i];
        }
        i = i + 1;
    }
    i < y.len()
}

/// The decimal digit of a number below ten.
pub open spec fn digit(d: int) -> char {
    (48 + d) as char
}

/// The number in decimal digits.
pub open spec fn decimal(n: nat) -> Seq<char>
    decreases n,
{
    if n < 10 {
        seq![digit(n as int)]
    } else {
        decimal(n / 10).push(digit((n % 10) as int))
    }
}

/// The number in decimal digits, with a minus sign where it is negative.
pub open spec fn signed_decimal(n: int) -> Seq<char> {
    if n < 0 {
        seq!['-'] + decimal((-n) as nat)
    } else {
        decimal(n as nat)
    }
}

/// The number in decimal digits.
pub fn u64_text(n: u64) -> (r: String)
    ensures
        r@ == decimal(n as nat),
    decreases n,
{
    if n < 10 {
        let mut r = String::new();
        r.push((48u8 + n as u8) as char);
        assert(r@ =~= seq![digit(n as int)]);
        r
    } else {
        let mut r = u64_text(n / 10);
        r.push((48u8 + (n % 10) as u8) as char);
        r
    }
}

/// The number in decimal digits, with a minus sign where it is negative.
pub fn i64_text(n: i64) -> (r: String)
    ensures
        r@ == signed_decimal(n as int),
{
    if n >= 0 {
        u64_text(n as u64)
    } else {
        let m: u64 = if n == i64::MIN {
            9223372036854775808u64
        } else {
            (-n) as u64
        };
        let mut r = String::new();
        r.push('-');
        let t = u64_text(m);
        r.append(t.as_str());
        assert(r@ =~= seq!['-'] + decimal((-n) as nat));
        r
    }
}

/// Whether the character is one of the blanks of ASCII.
pub open spec fn ascii_blank(c: char) -> bool {
    c == ' ' || c == '\t' || c == '\n' || c == '\r' || c as u32 == 11 || c as u32 == 12
}

/// The blanks of ASCII are blank, and no other character of ASCII is.
proof fn lemma_ascii_blank(c: char)
    requires
        (c as u32) < 128,
    ensures
        blank(c) <==> ascii_blank(c),
{
}

/// What is cut off at the start is blank, and what is left does not begin with a blank.
proof fn lemma_trimmed_start(s: Seq<char>) -> (k: int)
    ensures
        0 <= k <= s.len(),
        trimmed_start(s) == s.skip(k),
        forall|i: int| 0 <= i < k ==> blank(#[trigger] s[i]),
        k < s.len() ==> !blank(s[k]),
    decreases s.len(),
{
    if s.len() > 0 && blank(s[0]) {
        let k: int = lemma_trimmed_start(s.skip(1));
        assert(s.skip(1).skip(k) =~= s.skip(k + 1));
        assert forall|i: int| 0 <= i < k + 1 implies blank(#[trigger] s[i]) by {
            if i > 0 {
                assert(s.skip(1)[i - 1] == s[i]);
            }
        }
        k + 1
    } else {
        assert(s.skip(0) =~= s);
        0
    }
}

/// What is cut off at the end is blank, and what is left does not end with a blank.
proof fn lemma_trimmed_end(s: Seq<char>) -> (k: int)
    ensures
        0 <= k <= s.len(),
        trimmed_end(s) == s.take(k),
        forall|i: int| k <= i < s.len() ==> blank(#[trigger] s[i]),
        k > 0 ==> !blank(s[k - 1]),
    decreases s.len(),
{
    if s.len() > 0 && blank(s.last()) {
        let k: int = lemma_trimmed_end(s.drop_last());
        assert(s.drop_last().take(k) =~= s.take(k));
        assert forall|i: int| k <= i < s.len() implies blank(#[trigger] s[i]) by {
            if i < s.len() - 1 {
                assert(s.drop_last()[i] == s[i]);
            }
        }
        k
    } else {
        assert(s.take(s.len() as int) =~= s);
        s.len() as int
    }
}

/// Trimming cuts blanks off at both ends and nothing else: what is left begins and ends with no
/// blank, and what was cut off were blanks.
pub proof fn trimming_cuts_off_blanks(s: &str, r: String) -> (cut: (int, int))
    requires
        call_ensures(trim, (s,), r),
    ensures
        0 <= cut.0 <= cut.1 <= s@.len(),
        r@ == s@.subrange(cut.0, cut.1),
        forall|i: int|
            0 <= i < cut.0 && ((#[trigger] s@[i]) as u32) < 128 ==> ascii_blank(s@[i]),
        forall|i: int|
            cut.1 <= i < s@.len() && ((#[trigger] s@[i]) as u32) < 128 ==> ascii_blank(s@[i]),
        r@.len() > 0 ==> !ascii_blank(r@[0]) && !ascii_blank(r@[r@.len() - 1]),
{
    let a: int = lemma_trimmed_start(s@);
    let t = trimmed_start(s@);
    let b: int = lemma_trimmed_end(t);
    assert(t.take(b) =~= s@.subrange(a, a + b));
    assert forall|i: int| 0 <= i < a && ((#[trigger] s@[i]) as u32) < 128 implies ascii_blank(
        s@[i],
    ) by {
        lemma_ascii_blank(s@[i]);
    }
    assert forall|i: int|
        a + b <= i < s@.len() && ((#[trigger] s@[i]) as u32) < 128 implies ascii_blank(s@[i]) by {
        assert(t[i - a] == s@[i]);
        lemma_ascii_blank(s@[i]);
    }
    if r@.len() > 0 {
        assert(r@[0] == s@[a]);
        assert(!blank(s@[a]));
        assert(r@[r@.len() - 1] == t[b - 1]);
        if (r@[0] as u32) < 128 {
            lemma_ascii_blank(r@[0]);
        }
        if (r@[r@.len() - 1] as u32) < 128 {
            lemma_ascii_blank(r@[r@.len() - 1]);
        }
    }
    (a, a + b)
}

/// Of a text the slashes at its end are cut off, all of them and nothing else.
pub proof fn only_slashes_are_cut_off(s: &str, r: String, i: int)
    requires
        call_ensures(trim_end_slashes, (s,), r),
    ensures
        r@.is_prefix_of(s@),
        r@.len() > 0 ==> r@[r@.len() - 1] != '/',
        r@.len() <= i < s@.len() ==> s@[i] == '/',
{
    lemma_without_slashes(s@, i);
}

proof fn lemma_without_slashes(s: Seq<char>, i: int)
    ensures
        ({
            let r = without_trailing_slashes(s);
            &&& r.is_prefix_of(s)
            &&& r.len() > 0 ==> r[r.len() - 1] != '/'
            &&& r.len() <= i < s.len() ==> s[i] == '/'
        }),
    decreases s.len(),
{
    if s.len() > 0 && s.last() == '/' {
        lemma_without_slashes(s.drop_last(), i);
        let r = without_trailing_slashes(s.drop_last());
        assert(r.is_prefix_of(s)) by {
            assert(s.subrange(0, r.len() as int) =~= s.drop_last().subrange(0, r.len() as int));
        }
        if i < s.len() - 1 && r.len() <= i {
            assert(s.drop_last()[i] == s[i]);
        }
    } else {
        assert(s.subrange(0, s.len() as int) =~= s);
    }
}

/// The beginning of a text is its first characters, or all of a shorter one.
pub proof fn the_beginning_is_a_beginning(s: &str, n: usize, r: String)
    requires
        call_ensures(take_chars, (s, n), r),
    ensures
        r@.is_prefix_of(s@),
        s@.len() <= n ==> r@ == s@,
        s@.len() > n ==> r@.len() == n,
{
    assert(r@ =~= s@.subrange(0, r@.len() as int));
}

/// A text begins with another exactly where it is that one and something after it, which is then
/// what is left.
pub proof fn what_follows_a_prefix(
    s: &str,
    prefix: &str,
    begins: bool,
    rest: Option<String>,
    tail: Seq<char>,
)
    requires
        call_ensures(starts_with, (s, prefix), begins),
        call_ensures(strip_prefix, (s, prefix), rest),
    ensures
        begins <==> rest is Some,
        rest matches Some(t) ==> s@ == prefix@ + t@,
        s@ == prefix@ + tail ==> begins && rest->0@ == tail,
{
    if s@ == prefix@ + tail {
        assert(s@.subrange(0, prefix@.len() as int) =~= prefix@);
        assert(s@.skip(prefix@.len() as int) =~= tail);
    }
    if rest is Some {
        assert(s@ =~= prefix@ + s@.skip(prefix@.len() as int));
    }
}

/// In small letters a text of ASCII has each capital as its small letter, and all else as it was.
pub proof fn capitals_become_small(s: Seq<char>, i: int)
    requires
        is_ascii_chars(s),
        0 <= i < s.len(),
    ensures
        lowered(s).len() == s.len(),
        'A' <= s[i] && s[i] <= 'Z' ==> lowered(s)[i] as u32 == s[i] as u32 + 32,
        !('A' <= s[i] && s[i] <= 'Z') ==> lowered(s)[i] == s[i],
{
}

/// Texts are ordered by the first character in which they differ; one that goes on comes after
/// the one with which it begins.
pub proof fn the_first_difference_decides(a: &str, b: &str, r: bool, k: int)
    requires
        call_ensures(less, (a, b), r),
        0 <= k <= a@.len(),
        k <= b@.len(),
        forall|i: int| 0 <= i < k ==> #[trigger] a@[i] == b@[i],
    ensures
        k < a@.len() && k < b@.len() && a@[k] != b@[k] ==> (r <==> a@[k] < b@[k]),
        k == a@.len() && k < b@.len() ==> r,
        k == b@.len() ==> !r,
{
    lemma_first_difference(a@, b@, k);
}

proof fn lemma_first_difference(a: Seq<char>, b: Seq<char>, k: int)
    requires
        0 <= k <= a.len(),
        k <= b.len(),
        forall|i: int| 0 <= i < k ==> #[trigger] a[i] == b[i],
    ensures
        k < a.len() && k < b.len() && a[k] != b[k] ==> (text_lt(a, b) <==> a[k] < b[k]),
        k == a.len() && k < b.len() ==> text_lt(a, b),
        k == b.len() ==> !text_lt(a, b),
    decreases k,
{
    if k > 0 {
        assert(a[0] == b[0]);
        assert forall|i: int| 0 <= i < k - 1 implies #[trigger] a.skip(1)[i] == b.skip(1)[i] by {
            assert(a[i + 1] == b[i + 1]);
        }
        lemma_first_difference(a.skip(1), b.skip(1), k - 1);
    }
}

/// A list holds a text exactly where one of its places does; two texts are the same exactly where
/// they have the same characters, and an absent text is none.
pub proof fn texts_are_compared_by_their_characters(
    v: &Vec<String>,
    s: &str,
    held: bool,
    t: &str,
    equal: bool,
    o: &Option<String>,
    is: bool,
)
    requires
        call_ensures(contains_text, (v, s), held),
        call_ensures(same, (s, t), equal),
        call_ensures(is_text, (o, s), is),
    ensures
        held <==> exists|i: int| 0 <= i < v@.len() && (#[trigger] v@[i])@ == s@,
        equal <==> s@ == t@,
        is <==> o is Some && o->0@ == s@,
{
    let x = texts(v@);
    if held {
        let i: int = choose|i: int| 0 <= i < x.len() && x[i] == s@;
        assert(v@[i]@ == s@);
    }
    if exists|i: int| 0 <= i < v@.len() && (#[trigger] v@[i])@ == s@ {
        let i: int = choose|i: int| 0 <= i < v@.len() && (#[trigger] v@[i])@ == s@;
        assert(x[i] == s@);
    }
}

} // verus!
