//! Text primitives shared by the configuration and routing modules.
//!
//! Contracts speak of text as `Seq<char>`; the executable functions walk the
//! characters once and never index into the middle of a UTF-8 string.

use vstd::prelude::*;
use vstd::string::*;

verus! {

/// `String::push` appends exactly one character to the end of the string.
pub assume_specification[ String::push ](s: &mut String, c: char)
    ensures
        final(s)@ == old(s)@.push(c),
;

/// Whether two strings hold the same characters.
pub fn str_eq(a: &str, b: &str) -> (r: bool)
    ensures
        r == (a@ == b@),
{
    let x = a.as_bytes();
    let y = b.as_bytes();
    proof {
        vstd::utf8::encode_utf8_decode_utf8(a@);
        vstd::utf8::encode_utf8_decode_utf8(b@);
        assert(a@ == b@ <==> x@ == y@);
    }
    if x.len() != y.len() {
        return false;
    }
    let mut i: usize = 0;
    while i < x.len()
        invariant
            x@.len() == y@.len(),
            i <= x@.len(),
            x@.take(i as int) == y@.take(i as int),
            a@ == b@ <==> x@ == y@,
        decreases x@.len() - i,
    {
        if x[i] != y[i] {
            return false;
        }
        proof {
            assert(x@.take(i + 1) == x@.take(i as int).push(x@[i as int]));
            assert(y@.take(i + 1) == y@.take(i as int).push(y@[i as int]));
        }
        i += 1;
    }
    proof {
        assert(x@.take(x@.len() as int) == x@);
        assert(y@.take(y@.len() as int) == y@);
    }
    true
}

/// The characters of `s`, in order.
pub fn chars_of(s: &str) -> (r: Vec<char>)
    ensures
        r@ == s@,
{
    let mut out: Vec<char> = Vec::new();
    for c in it: s.chars()
        invariant
            out@ == it.seq().take(it.index@),
    {
        out.push(c);
    }
    out
}

/// The string made of `v[lo..hi]`.
pub fn string_from(v: &Vec<char>, lo: usize, hi: usize) -> (r: String)
    requires
        lo <= hi <= v.len(),
    ensures
        r@ == v@.subrange(lo as int, hi as int),
{
    let mut out = String::new();
    let mut i: usize = lo;
    while i < hi
        invariant
            lo <= i <= hi <= v.len(),
            out@ == v@.subrange(lo as int, i as int),
        decreases hi - i,
    {
        out.push(v[i]);
        assert(v@.subrange(lo as int, i + 1) == v@.subrange(lo as int, i as int).push(v@[i as int]));
        i += 1;
    }
    out
}

/// Appends `v[lo..hi]` to `out`.
pub fn push_chars(out: &mut String, v: &Vec<char>, lo: usize, hi: usize)
    requires
        lo <= hi <= v.len(),
    ensures
        final(out)@ == old(out)@ + v@.subrange(lo as int, hi as int),
{
    let mut i: usize = lo;
    while i < hi
        invariant
            lo <= i <= hi <= v.len(),
            out@ == old(out)@ + v@.subrange(lo as int, i as int),
        decreases hi - i,
    {
        out.push(v[i]);
        assert(v@.subrange(lo as int, i + 1) == v@.subrange(lo as int, i as int).push(v@[i as int]));
        assert(old(out)@ + v@.subrange(lo as int, i + 1)
            == (old(out)@ + v@.subrange(lo as int, i as int)).push(v@[i as int]));
        i += 1;
    }
}

/// `a` followed by `b`.
pub fn concat_str(a: &str, b: &str) -> (r: String)
    ensures
        r@ == a@ + b@,
{
    let mut out = String::from_str(a);
    out.append(b);
    out
}

/// A copy of an optional string.
pub fn clone_option(o: &Option<String>) -> (r: Option<String>)
    ensures
        r == *o,
{
    match o {
        Some(s) => Some(s.clone()),
        None => None,
    }
}

/// Whether `p` is the beginning of `s`.
pub open spec fn spec_starts_with(s: Seq<char>, p: Seq<char>) -> bool {
    p.len() <= s.len() && s.take(p.len() as int) == p
}

/// Whether the text `s` begins with `p`.
pub fn starts_with(s: &Vec<char>, p: &Vec<char>) -> (r: bool)
    ensures
        r == spec_starts_with(s@, p@),
{
    if p.len() > s.len() {
        return false;
    }
    let mut i: usize = 0;
    while i < p.len()
        invariant
            p.len() <= s.len(),
            i <= p.len(),
            s@.take(i as int) == p@.take(i as int),
        decreases p.len() - i,
    {
        if s[i] != p[i] {
            assert(s@.take(p.len() as int)[i as int] != p@[i as int]);
            return false;
        }
        proof {
            assert(s@.take(i + 1) == s@.take(i as int).push(s@[i as int]));
            assert(p@.take(i + 1) == p@.take(i as int).push(p@[i as int]));
        }
        i += 1;
    }
    assert(p@.take(p@.len() as int) == p@);
    true
}

/// Whether the text `s` begins with `p`.
pub fn str_starts_with(s: &str, p: &str) -> (r: bool)
    ensures
        r == spec_starts_with(s@, p@),
{
    let sv = chars_of(s);
    let pv = chars_of(p);
    starts_with(&sv, &pv)
}

/// What is left of `s` after the prefix `p`, if `s` begins with `p`.
pub open spec fn spec_strip_prefix(s: Seq<char>, p: Seq<char>) -> Option<Seq<char>> {
    if spec_starts_with(s, p) {
        Some(s.skip(p.len() as int))
    } else {
        None
    }
}

/// Removes the prefix `p` from `s`; `None` when `s` does not begin with it.
pub fn strip_prefix(s: &str, p: &str) -> (r: Option<String>)
    ensures
        match r {
            Some(rest) => spec_strip_prefix(s@, p@) == Some(rest@),
            None => spec_strip_prefix(s@, p@) is None,
        },
{
    let sv = chars_of(s);
    let pv = chars_of(p);
    if starts_with(&sv, &pv) {
        let rest = string_from(&sv, pv.len(), sv.len());
        assert(sv@.subrange(pv.len() as int, sv.len() as int) == s@.skip(p@.len() as int));
        Some(rest)
    } else {
        None
    }
}

/// The characters that count as white space: the code points with the
/// Unicode property `White_Space`.
pub open spec fn is_space(c: char) -> bool {
    let u = c as u32;
    ||| 0x09 <= u <= 0x0D
    ||| u == 0x20
    ||| u == 0x85
    ||| u == 0xA0
    ||| u == 0x1680
    ||| 0x2000 <= u <= 0x200A
    ||| u == 0x2028
    ||| u == 0x2029
    ||| u == 0x202F
    ||| u == 0x205F
    ||| u == 0x3000
}

/// Whether `c` is white space.
pub fn char_is_space(c: char) -> (r: bool)
    ensures
        r == is_space(c),
{
    let u = c as u32;
    (0x09 <= u && u <= 0x0D) || u == 0x20 || u == 0x85 || u == 0xA0 || u == 0x1680 || (0x2000 <= u
        && u <= 0x200A) || u == 0x2028 || u == 0x2029 || u == 0x202F || u == 0x205F || u == 0x3000
}

/// How many characters at the beginning of `s` satisfy `f`.
pub open spec fn lead_count(s: Seq<char>, f: spec_fn(char) -> bool) -> nat
    decreases s.len(),
{
    if s.len() > 0 && f(s[0]) {
        1 + lead_count(s.skip(1), f)
    } else {
        0
    }
}

/// How many characters at the end of `s` satisfy `f`.
pub open spec fn trail_count(s: Seq<char>, f: spec_fn(char) -> bool) -> nat
    decreases s.len(),
{
    if s.len() > 0 && f(s.last()) {
        1 + trail_count(s.drop_last(), f)
    } else {
        0
    }
}

/// `n` is the leading count exactly when the first `n` characters satisfy
/// `f` and the next one, if there is one, does not.
pub proof fn lemma_lead_count(s: Seq<char>, f: spec_fn(char) -> bool, n: nat)
    requires
        n <= s.len(),
        forall|j: int| 0 <= j < n ==> f(s[j]),
        n == s.len() || !f(s[n as int]),
    ensures
        lead_count(s, f) == n,
    decreases n,
{
    if n > 0 {
        let t = s.skip(1);
        assert forall|j: int| 0 <= j < n - 1 implies f(t[j]) by {
            assert(t[j] == s[j + 1]);
        }
        if n < s.len() {
            assert(t[n - 1] == s[n as int]);
        }
        lemma_lead_count(t, f, (n - 1) as nat);
    }
}

/// `n` is the trailing count exactly when the last `n` characters satisfy
/// `f` and the one before them, if there is one, does not.
pub proof fn lemma_trail_count(s: Seq<char>, f: spec_fn(char) -> bool, n: nat)
    requires
        n <= s.len(),
        forall|j: int| s.len() - n <= j < s.len() ==> f(s[j]),
        n == s.len() || !f(s[s.len() - n - 1]),
    ensures
        trail_count(s, f) == n,
    decreases n,
{
    if n > 0 {
        let t = s.drop_last();
        assert forall|j: int| t.len() - (n - 1) <= j < t.len() implies f(t[j]) by {
            assert(t[j] == s[j]);
        }
        if n < s.len() {
            assert(t[t.len() - (n - 1) - 1] == s[s.len() - n - 1]);
        }
        lemma_trail_count(t, f, (n - 1) as nat);
    }
}

/// `s` without the characters at its end that satisfy `f`.
pub open spec fn spec_trim_end_by(s: Seq<char>, f: spec_fn(char) -> bool) -> Seq<char> {
    s.take(s.len() - trail_count(s, f))
}

/// `s` without the characters at its beginning that satisfy `f`.
pub open spec fn spec_trim_start_by(s: Seq<char>, f: spec_fn(char) -> bool) -> Seq<char> {
    s.skip(lead_count(s, f) as int)
}

/// `s` without the characters at either end that satisfy `f`.
pub open spec fn spec_trim_by(s: Seq<char>, f: spec_fn(char) -> bool) -> Seq<char> {
    spec_trim_end_by(spec_trim_start_by(s, f), f)
}

/// The test "is the character `c`".
pub open spec fn is_char(c: char) -> spec_fn(char) -> bool {
    |x: char| x == c
}

/// The test "is white space".
pub open spec fn is_space_fn() -> spec_fn(char) -> bool {
    |x: char| is_space(x)
}

/// `s` without the occurrences of `c` at its end.
pub open spec fn spec_trim_end_matches(s: Seq<char>, c: char) -> Seq<char> {
    spec_trim_end_by(s, is_char(c))
}

/// `s` without the occurrences of `c` at either end.
pub open spec fn spec_trim_matches(s: Seq<char>, c: char) -> Seq<char> {
    spec_trim_by(s, is_char(c))
}

/// `s` without the white space at either end.
pub open spec fn spec_trim(s: Seq<char>) -> Seq<char> {
    spec_trim_by(s, is_space_fn())
}

/// Removes every trailing `c` from `s`.
pub fn trim_end_matches(s: &str, c: char) -> (r: String)
    ensures
        r@ == spec_trim_end_matches(s@, c),
{
    let v = chars_of(s);
    let mut hi: usize = v.len();
    while hi > 0 && v[hi - 1] == c
        invariant
            hi <= v.len(),
            forall|j: int| hi <= j < v.len() ==> v@[j] == c,
        decreases hi,
    {
        hi -= 1;
    }
    proof {
        lemma_trail_count(v@, is_char(c), (v.len() - hi) as nat);
    }
    string_from(&v, 0, hi)
}

/// Removes every leading and trailing `c` from `s`.
pub fn trim_matches(s: &str, c: char) -> (r: String)
    ensures
        r@ == spec_trim_matches(s@, c),
{
    let v = chars_of(s);
    let mut lo: usize = 0;
    while lo < v.len() && v[lo] == c
        invariant
            lo <= v.len(),
            forall|j: int| 0 <= j < lo ==> v@[j] == c,
        decreases v.len() - lo,
    {
        lo += 1;
    }
    let mut hi: usize = v.len();
    while hi > lo && v[hi - 1] == c
        invariant
            lo <= hi <= v.len(),
            forall|j: int| hi <= j < v.len() ==> v@[j] == c,
        decreases hi,
    {
        hi -= 1;
    }
    proof {
        let f = is_char(c);
        lemma_lead_count(v@, f, lo as nat);
        let t = v@.skip(lo as int);
        assert forall|j: int| t.len() - (v.len() - hi) <= j < t.len() implies f(t[j]) by {
            assert(t[j] == v@[j + lo]);
        }
        if hi > lo {
            assert(t[t.len() - (v.len() - hi) - 1] == v@[hi - 1]);
        }
        lemma_trail_count(t, f, (v.len() - hi) as nat);
        assert(v@.subrange(lo as int, hi as int) == t.take(t.len() - (v.len() - hi)));
    }
    string_from(&v, lo, hi)
}

/// Removes the white space at both ends of `s`.
pub fn trim(s: &str) -> (r: String)
    ensures
        r@ == spec_trim(s@),
{
    let v = chars_of(s);
    let mut lo: usize = 0;
    while lo < v.len() && char_is_space(v[lo])
        invariant
            lo <= v.len(),
            forall|j: int| 0 <= j < lo ==> is_space(v@[j]),
        decreases v.len() - lo,
    {
        lo += 1;
    }
    let mut hi: usize = v.len();
    while hi > lo && char_is_space(v[hi - 1])
        invariant
            lo <= hi <= v.len(),
            forall|j: int| hi <= j < v.len() ==> is_space(v@[j]),
        decreases hi,
    {
        hi -= 1;
    }
    proof {
        let f = is_space_fn();
        lemma_lead_count(v@, f, lo as nat);
        let t = v@.skip(lo as int);
        assert forall|j: int| t.len() - (v.len() - hi) <= j < t.len() implies f(t[j]) by {
            assert(t[j] == v@[j + lo]);
        }
        if hi > lo {
            assert(t[t.len() - (v.len() - hi) - 1] == v@[hi - 1]);
        }
        lemma_trail_count(t, f, (v.len() - hi) as nat);
        assert(v@.subrange(lo as int, hi as int) == t.take(t.len() - (v.len() - hi)));
    }
    string_from(&v, lo, hi)
}

/// The lower-case form that `str::to_lowercase` gives to a text.
pub uninterp spec fn lowercase_of(s: Seq<char>) -> Seq<char>;

/// `str::to_lowercase`: the lower-case form of `s`. The contract gives the
/// result a name and claims nothing else of it.
#[verifier::external_body]
pub(crate) fn to_lowercase(s: &str) -> (r: String)
    ensures
        r@ == lowercase_of(s@),
{
    s.to_lowercase()
}

/// The order in which names are sorted: character by character, by code
/// point, a proper prefix before the longer text.
pub open spec fn lex_lt(a: Seq<char>, b: Seq<char>) -> bool
    decreases a.len(),
{
    if b.len() == 0 {
        false
    } else if a.len() == 0 {
        true
    } else if a[0] != b[0] {
        a[0] < b[0]
    } else {
        lex_lt(a.skip(1), b.skip(1))
    }
}

/// No text comes before itself.
pub proof fn lemma_lex_irreflexive(a: Seq<char>)
    ensures
        !lex_lt(a, a),
    decreases a.len(),
{
    if a.len() > 0 {
        lemma_lex_irreflexive(a.skip(1));
    }
}

/// Of two different texts one comes before the other.
pub proof fn lemma_lex_total(a: Seq<char>, b: Seq<char>)
    ensures
        lex_lt(a, b) || lex_lt(b, a) || a == b,
    decreases a.len(),
{
    if a.len() == 0 || b.len() == 0 {
        if a.len() == 0 && b.len() == 0 {
            assert(a =~= b);
        }
    } else if a[0] == b[0] {
        lemma_lex_total(a.skip(1), b.skip(1));
        if a.skip(1) == b.skip(1) {
            assert(a =~= seq![a[0]] + a.skip(1));
            assert(b =~= seq![b[0]] + b.skip(1));
        }
    }
}

/// Two texts do not each come before the other.
pub proof fn lemma_lex_asymmetric(a: Seq<char>, b: Seq<char>)
    requires
        lex_lt(a, b),
    ensures
        !lex_lt(b, a),
    decreases a.len(),
{
    if a.len() > 0 && b.len() > 0 && a[0] == b[0] {
        lemma_lex_asymmetric(a.skip(1), b.skip(1));
    }
}

/// The order is transitive.
pub proof fn lemma_lex_transitive(a: Seq<char>, b: Seq<char>, c: Seq<char>)
    requires
        lex_lt(a, b),
        lex_lt(b, c),
    ensures
        lex_lt(a, c),
    decreases a.len(),
{
    if a.len() > 0 && b.len() > 0 && c.len() > 0 {
        if a[0] == b[0] && b[0] == c[0] {
            lemma_lex_transitive(a.skip(1), b.skip(1), c.skip(1));
        }
    }
}

/// Whether `a` comes before `b` in the order of names.
pub fn chars_lt(a: &Vec<char>, b: &Vec<char>) -> (r: bool)
    ensures
        r == lex_lt(a@, b@),
{
    let mut i: usize = 0;
    assert(a@.skip(0) == a@ && b@.skip(0) == b@);
    while i < a.len() && i < b.len()
        invariant
            i <= a.len(),
            i <= b.len(),
            lex_lt(a@, b@) == lex_lt(a@.skip(i as int), b@.skip(i as int)),
        decreases a.len() - i,
    {
        proof {
            assert(a@.skip(i as int)[0] == a@[i as int]);
            assert(b@.skip(i as int)[0] == b@[i as int]);
            assert(a@.skip(i as int).skip(1) == a@.skip(i + 1));
            assert(b@.skip(i as int).skip(1) == b@.skip(i + 1));
        }
        if a[i] != b[i] {
            return a[i] < b[i];
        }
        i += 1;
    }
    i < b.len()
}

/// Whether `a` comes before `b` in the order of names.
pub fn str_lt(a: &str, b: &str) -> (r: bool)
    ensures
        r == lex_lt(a@, b@),
{
    let x = chars_of(a);
    let y = chars_of(b);
    chars_lt(&x, &y)
}

/// Whether the texts stand in ascending order, none twice.
pub open spec fn spec_sorted(names: Seq<Seq<char>>) -> bool {
    forall|i: int, j: int| 0 <= i < j < names.len() ==> lex_lt(names[i], names[j])
}

/// The texts that a vector of strings holds.
pub open spec fn views(v: Seq<String>) -> Seq<Seq<char>> {
    Seq::new(v.len(), |i: int| v[i]@)
}

/// Puts `name` into the ascending list `out` at its place; a name that the
/// list already holds is not added again.
pub fn insert_sorted(out: &mut Vec<String>, name: &str)
    requires
        spec_sorted(views(old(out)@)),
    ensures
        spec_sorted(views(final(out)@)),
        views(final(out)@).to_set() == views(old(out)@).to_set().insert(name@),
{
    let ghost before = views(out@);
    let mut pos: usize = 0;
    while pos < out.len() && str_lt(out[pos].as_str(), name)
        invariant
            out@ == old(out)@,
            before == views(out@),
            pos <= out.len(),
            forall|j: int| 0 <= j < pos ==> lex_lt(#[trigger] before[j], name@),
        decreases out.len() - pos,
    {
        assert(before[pos as int] == out@[pos as int]@);
        pos += 1;
    }
    if pos < out.len() && str_eq(out[pos].as_str(), name) {
        proof {
            assert(before[pos as int] == name@);
            assert(before.to_set().insert(name@) =~= before.to_set());
        }
        return ;
    }
    out.insert(pos, String::from_str(name));
    proof {
        let after = views(out@);
        assert(after =~= before.insert(pos as int, name@));
        if pos < before.len() {
            assert(before[pos as int] == old(out)@[pos as int]@);
            lemma_lex_total(before[pos as int], name@);
        }
        assert forall|i: int, j: int| 0 <= i < j < after.len() implies lex_lt(after[i], after[j]) by {
            if j == pos as int {
                assert(after[i] == before[i]);
            } else if i == pos as int {
                assert(after[j] == before[j - 1]);
                if j - 1 > pos {
                    assert(lex_lt(before[pos as int], before[j - 1]));
                    lemma_lex_transitive(name@, before[pos as int], before[j - 1]);
                }
            } else {
                let bi = if i < pos { i } else { i - 1 };
                let bj = if j < pos { j } else { j - 1 };
                assert(after[i] == before[bi]);
                assert(after[j] == before[bj]);
            }
        }
        assert(after.to_set() =~= before.to_set().insert(name@)) by {
            assert forall|x: Seq<char>| after.contains(x) <==> before.contains(x) || x == name@ by {
                if after.contains(x) {
                    let k = after.index_of(x);
                    if k < pos {
                        assert(before[k] == x);
                    } else if k > pos {
                        assert(before[k - 1] == x);
                    }
                }
                if before.contains(x) {
                    let k = before.index_of(x);
                    if k < pos {
                        assert(after[k] == x);
                    } else {
                        assert(after[k + 1] == x);
                    }
                }
                if x == name@ {
                    assert(after[pos as int] == x);
                }
            }
        }
    }
}

/// The character of a decimal digit.
pub open spec fn digit_char(d: int) -> char {
    if d == 0 {
        '0'
    } else if d == 1 {
        '1'
    } else if d == 2 {
        '2'
    } else if d == 3 {
        '3'
    } else if d == 4 {
        '4'
    } else if d == 5 {
        '5'
    } else if d == 6 {
        '6'
    } else if d == 7 {
        '7'
    } else if d == 8 {
        '8'
    } else {
        '9'
    }
}

/// The decimal numeral of `n`, without leading zeros.
pub open spec fn spec_decimal(n: nat) -> Seq<char>
    decreases n,
{
    if n < 10 {
        seq![digit_char(n as int)]
    } else {
        spec_decimal(n / 10).push(digit_char((n % 10) as int))
    }
}

/// The decimal numeral of `n`, with a minus sign if it is negative.
pub open spec fn spec_signed_decimal(n: int) -> Seq<char> {
    if n < 0 {
        seq!['-'] + spec_decimal((-n) as nat)
    } else {
        spec_decimal(n as nat)
    }
}

/// `count` zeros.
pub open spec fn zeros(count: nat) -> Seq<char> {
    Seq::new(count, |i: int| '0')
}

/// The decimal numeral of `n`, filled with zeros on the left up to `width`
/// characters; a longer numeral is left as it is.
pub open spec fn spec_padded(n: nat, width: nat) -> Seq<char> {
    let d = spec_decimal(n);
    if d.len() >= width {
        d
    } else {
        zeros((width - d.len()) as nat) + d
    }
}

/// The character of the digit `d`.
fn digit(d: u64) -> (c: char)
    requires
        d < 10,
    ensures
        c == digit_char(d as int),
{
    if d == 0 {
        '0'
    } else if d == 1 {
        '1'
    } else if d == 2 {
        '2'
    } else if d == 3 {
        '3'
    } else if d == 4 {
        '4'
    } else if d == 5 {
        '5'
    } else if d == 6 {
        '6'
    } else if d == 7 {
        '7'
    } else if d == 8 {
        '8'
    } else {
        '9'
    }
}

/// The digits of `n`, most significant first.
fn decimal_digits(n: u64) -> (r: Vec<char>)
    ensures
        r@ == spec_decimal(n as nat),
{
    let mut rev: Vec<char> = Vec::new();
    let mut m = n;
    while m >= 10
        invariant
            spec_decimal(n as nat) == spec_decimal(m as nat) + rev@.reverse(),
        decreases m,
    {
        let d = digit(m % 10);
        proof {
            assert(spec_decimal(m as nat) == spec_decimal((m / 10) as nat).push(d));
            assert(rev@.push(d).reverse() == seq![d] + rev@.reverse());
            assert(spec_decimal((m / 10) as nat).push(d) + rev@.reverse() == spec_decimal(
                (m / 10) as nat,
            ) + (seq![d] + rev@.reverse()));
        }
        rev.push(d);
        m = m / 10;
    }
    let d = digit(m);
    proof {
        assert(rev@.push(d).reverse() == seq![d] + rev@.reverse());
        assert(spec_decimal(m as nat) == seq![d]);
    }
    rev.push(d);
    let mut out: Vec<char> = Vec::new();
    let mut i: usize = rev.len();
    while i > 0
        invariant
            i <= rev.len(),
            out@ == rev@.reverse().take(rev.len() - i),
        decreases i,
    {
        i -= 1;
        out.push(rev[i]);
        proof {
            let r = rev@.reverse();
            assert(r[rev.len() - 1 - i] == rev@[i as int]);
            assert(r.take(rev.len() - i) == r.take(rev.len() - i - 1).push(r[rev.len() - 1 - i]));
        }
    }
    assert(rev@.reverse().take(rev.len() as int) == rev@.reverse());
    out
}

/// Appends the decimal numeral of `n`.
pub fn push_decimal(out: &mut String, n: u64)
    ensures
        final(out)@ == old(out)@ + spec_decimal(n as nat),
{
    let digits = decimal_digits(n);
    push_chars(out, &digits, 0, digits.len());
    assert(digits@.subrange(0, digits.len() as int) == digits@);
}

/// Appends the decimal numeral of `n`, zero-filled to `width` characters.
pub fn push_padded(out: &mut String, n: u64, width: usize)
    ensures
        final(out)@ == old(out)@ + spec_padded(n as nat, width as nat),
{
    let digits = decimal_digits(n);
    let ghost start = out@;
    let mut k: usize = digits.len();
    assert(start + zeros(0) == start);
    while k < width
        invariant
            digits.len() <= k,
            k == digits.len() || k <= width,
            out@ == start + zeros((k - digits.len()) as nat),
        decreases width - k,
    {
        out.push('0');
        proof {
            assert(zeros((k + 1 - digits.len()) as nat) == zeros((k - digits.len()) as nat).push('0'));
            assert(start + zeros((k - digits.len()) as nat).push('0') == (start + zeros(
                (k - digits.len()) as nat,
            )).push('0'));
        }
        k += 1;
    }
    let ghost mid = out@;
    push_chars(out, &digits, 0, digits.len());
    proof {
        assert(digits@.subrange(0, digits.len() as int) == digits@);
        if digits.len() >= width {
            assert(start + zeros(0) == start);
        } else {
            assert(start + zeros((width - digits.len()) as nat) + digits@ == start + (zeros(
                (width - digits.len()) as nat,
            ) + digits@));
        }
    }
}

/// Appends the decimal numeral of `n`, with its sign if it is negative.
pub fn push_signed_decimal(out: &mut String, n: i64)
    ensures
        final(out)@ == old(out)@ + spec_signed_decimal(n as int),
{
    if n < 0 {
        out.push('-');
        let ghost mid = out@;
        let magnitude: u64 = if n == i64::MIN {
            9_223_372_036_854_775_808u64
        } else {
            (-n) as u64
        };
        push_decimal(out, magnitude);
        proof {
            assert(old(out)@.push('-') + spec_decimal(magnitude as nat) == old(out)@ + (seq!['-']
                + spec_decimal(magnitude as nat)));
        }
    } else {
        push_decimal(out, n as u64);
    }
}

/// The decimal numeral of `n`.
pub fn decimal_string(n: u64) -> (r: String)
    ensures
        r@ == spec_decimal(n as nat),
{
    let mut out = String::new();
    push_decimal(&mut out, n);
    out
}

/// The decimal numeral of `n`, with its sign if it is negative.
pub fn signed_decimal_string(n: i64) -> (r: String)
    ensures
        r@ == spec_signed_decimal(n as int),
{
    let mut out = String::new();
    push_signed_decimal(&mut out, n);
    out
}

/// Whether `needle` stands in `hay` at place `i`.
pub open spec fn spec_occurs_at(hay: Seq<char>, needle: Seq<char>, i: int) -> bool {
    0 <= i && i + needle.len() <= hay.len() && hay.subrange(i, i + needle.len()) == needle
}

/// Whether `needle` stands somewhere in `hay`.
pub open spec fn spec_contains(hay: Seq<char>, needle: Seq<char>) -> bool {
    exists|i: int| spec_occurs_at(hay, needle, i)
}

/// Whether `needle` stands in `hay` at place `at`.
fn occurs_at(hay: &Vec<char>, needle: &Vec<char>, at: usize) -> (r: bool)
    requires
        at + needle.len() <= hay.len(),
    ensures
        r == spec_occurs_at(hay@, needle@, at as int),
{
    let mut k: usize = 0;
    while k < needle.len()
        invariant
            k <= needle.len(),
            at + needle.len() <= hay.len(),
            hay@.subrange(at as int, at + k) == needle@.take(k as int),
        decreases needle.len() - k,
    {
        if hay[at + k] != needle[k] {
            assert(hay@.subrange(at as int, at + needle.len())[k as int] != needle@[k as int]);
            return false;
        }
        proof {
            assert(hay@.subrange(at as int, at + k + 1) == hay@.subrange(at as int, at + k).push(
                hay@[at + k],
            ));
            assert(needle@.take(k + 1) == needle@.take(k as int).push(needle@[k as int]));
        }
        k += 1;
    }
    assert(needle@.take(needle@.len() as int) == needle@);
    true
}

/// Whether `needle` stands somewhere in `hay`.
pub fn contains(hay: &str, needle: &str) -> (r: bool)
    ensures
        r == spec_contains(hay@, needle@),
{
    let h = chars_of(hay);
    let n = chars_of(needle);
    if n.len() > h.len() {
        assert forall|i: int| !spec_occurs_at(hay@, needle@, i) by {}
        return false;
    }
    let last = h.len() - n.len();
    let mut i: usize = 0;
    while i < last
        invariant
            i <= last,
            last == h.len() - n.len(),
            n.len() <= h.len(),
            h@ == hay@,
            n@ == needle@,
            forall|j: int| 0 <= j < i ==> !spec_occurs_at(h@, n@, j),
        decreases last - i,
    {
        if occurs_at(&h, &n, i) {
            return true;
        }
        i += 1;
    }
    let r = occurs_at(&h, &n, last);
    proof {
        if !r {
            assert forall|j: int| !spec_occurs_at(hay@, needle@, j) by {}
        }
    }
    r
}

/// An ascending list holds no text twice.
pub proof fn lemma_sorted_no_duplicates(a: Seq<Seq<char>>)
    requires
        spec_sorted(a),
    ensures
        a.no_duplicates(),
{
    assert forall|i: int, j: int| 0 <= i < a.len() && 0 <= j < a.len() && i != j implies a[i] != a[j] by {
        if i < j {
            assert(lex_lt(a[i], a[j]));
            lemma_lex_irreflexive(a[i]);
        } else {
            assert(lex_lt(a[j], a[i]));
            lemma_lex_irreflexive(a[j]);
        }
    }
}

/// Two ascending lists of the same texts are the same list.
pub proof fn lemma_sorted_unique(a: Seq<Seq<char>>, b: Seq<Seq<char>>)
    requires
        spec_sorted(a),
        spec_sorted(b),
        a.to_set() == b.to_set(),
    ensures
        a == b,
    decreases a.len(),
{
    lemma_sorted_no_duplicates(a);
    lemma_sorted_no_duplicates(b);
    a.unique_seq_to_set();
    b.unique_seq_to_set();
    if a.len() == 0 {
        assert(a =~= b);
    } else {
        let x = a.last();
        let y = b.last();
        assert(a.to_set().contains(x)) by {
            assert(a[a.len() - 1] == x);
        }
        assert(b.to_set().contains(y)) by {
            assert(b[b.len() - 1] == y);
        }
        assert(b.contains(x));
        assert(a.contains(y));
        let j = b.index_of(x);
        let k = a.index_of(y);
        if x != y {
            assert(j < b.len() - 1);
            assert(k < a.len() - 1);
            assert(lex_lt(b[j], b[b.len() - 1]));
            assert(lex_lt(a[k], a[a.len() - 1]));
            lemma_lex_asymmetric(x, y);
        }
        let a0 = a.drop_last();
        let b0 = b.drop_last();
        assert(a0.to_set() =~= b0.to_set()) by {
            assert forall|t: Seq<char>| a0.contains(t) <==> b0.contains(t) by {
                if a0.contains(t) {
                    let i = a0.index_of(t);
                    assert(a[i] == t);
                    assert(a.to_set().contains(t));
                    assert(b.contains(t));
                    let m = b.index_of(t);
                    if m == b.len() - 1 {
                        assert(a[i] == a[a.len() - 1]);
                    }
                    assert(b0[m] == t);
                }
                if b0.contains(t) {
                    let i = b0.index_of(t);
                    assert(b[i] == t);
                    assert(b.to_set().contains(t));
                    assert(a.contains(t));
                    let m = a.index_of(t);
                    if m == a.len() - 1 {
                        assert(b[i] == b[b.len() - 1]);
                    }
                    assert(a0[m] == t);
                }
            }
        }
        assert(spec_sorted(a0)) by {
            assert forall|i: int, j: int| 0 <= i < j < a0.len() implies lex_lt(a0[i], a0[j]) by {
                assert(lex_lt(a[i], a[j]));
            }
        }
        assert(spec_sorted(b0)) by {
            assert forall|i: int, j: int| 0 <= i < j < b0.len() implies lex_lt(b0[i], b0[j]) by {
                assert(lex_lt(b[i], b[j]));
            }
        }
        lemma_sorted_unique(a0, b0);
        assert(a =~= a0.push(x));
        assert(b =~= b0.push(y));
    }
}

/// The texts of a set in ascending order.
pub open spec fn spec_ascending(names: Set<Seq<char>>) -> Seq<Seq<char>> {
    choose|s: Seq<Seq<char>>| spec_sorted(s) && s.to_set() == names
}

/// An ascending list is the ascending order of its texts.
pub proof fn lemma_ascending(s: Seq<Seq<char>>)
    requires
        spec_sorted(s),
    ensures
        spec_ascending(s.to_set()) == s,
{
    let c = spec_ascending(s.to_set());
    assert(spec_sorted(s) && s.to_set() == s.to_set());
    lemma_sorted_unique(c, s);
}

} // verus!
