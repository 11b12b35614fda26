//! Text as a sequence of characters.
//!
//! The parsers of the library work on `Vec<char>` and on character slices; the
//! specification functions of this module say what each operation means on `Seq<char>`.
use vstd::prelude::*;
use vstd::slice::slice_subrange;

verus! {

/// `String::push`: appends one character at the end.
#[verifier::external_body]
pub(crate) fn push_char(s: &mut String, c: char)
    ensures
        final(s)@ == old(s)@.push(c),
{
    s.push(c)
}

// ---------------------------------------------------------------------------
// Strings and character sequences
// ---------------------------------------------------------------------------

/// The characters of a string.
pub fn chars_of(s: &str) -> (r: Vec<char>)
    ensures
        r@ == s@,
{
    let mut v: Vec<char> = Vec::new();
    for c in it: s.chars()
        invariant
            it.seq() == s@,
            v@ =~= s@.take(it.index() as int),
    {
        v.push(c);
    }
    assert(s@.take(s@.len() as int) =~= s@);
    v
}

/// The string that holds exactly the given characters.
pub fn text_of(v: &[char]) -> (r: String)
    ensures
        r@ == v@,
{
    let mut s = String::new();
    let mut i: usize = 0;
    while i < v.len()
        invariant
            i <= v@.len(),
            s@ =~= v@.take(i as int),
        decreases v@.len() - i,
    {
        push_char(&mut s, v[i]);
        i = i + 1;
    }
    s
}

/// Whether two strings hold the same characters.
pub fn same(a: &str, b: &str) -> (r: bool)
    ensures
        r == (a@ == b@),
{
    same_chars(&chars_of(a), &chars_of(b))
}

/// Whether two character slices are equal.
pub fn same_chars(a: &[char], b: &[char]) -> (r: bool)
    ensures
        r == (a@ == b@),
{
    if a.len() != b.len() {
        return false;
    }
    let mut i: usize = 0;
    while i < a.len()
        invariant
            a@.len() == b@.len(),
            i <= a@.len(),
            forall|j: int| 0 <= j < i ==> a@[j] == b@[j],
        decreases a@.len() - i,
    {
        if a[i] != b[i] {
            return false;
        }
        i = i + 1;
    }
    assert(a@ =~= b@);
    true
}

/// An owned copy of a string.
pub fn own(s: &str) -> (r: String)
    ensures
        r@ == s@,
{
    s.to_owned()
}

/// Two strings, one after the other.
pub fn cat2(a: &str, b: &str) -> (r: String)
    ensures
        r@ == a@ + b@,
{
    let mut s = a.to_owned();
    s.append(b);
    s
}

/// Three strings, one after the other.
pub fn cat3(a: &str, b: &str, c: &str) -> (r: String)
    ensures
        r@ == a@ + b@ + c@,
{
    let mut s = cat2(a, b);
    s.append(c);
    s
}

/// Four strings, one after the other.
pub fn cat4(a: &str, b: &str, c: &str, d: &str) -> (r: String)
    ensures
        r@ == a@ + b@ + c@ + d@,
{
    let mut s = cat3(a, b, c);
    s.append(d);
    s
}

/// Five strings, one after the other.
pub fn cat5(a: &str, b: &str, c: &str, d: &str, e: &str) -> (r: String)
    ensures
        r@ == a@ + b@ + c@ + d@ + e@,
{
    let mut s = cat4(a, b, c, d);
    s.append(e);
    s
}

/// The contents of a list of strings.
pub open spec fn texts(v: Seq<String>) -> Seq<Seq<char>> {
    Seq::new(v.len(), |i: int| v[i]@)
}

/// The contents of an optional string.
pub open spec fn opt_text(v: Option<String>) -> Option<Seq<char>> {
    match v {
        Some(s) => Some(s@),
        None => None,
    }
}

/// An owned copy of an optional string.
pub fn own_opt(v: &Option<String>) -> (r: Option<String>)
    ensures
        opt_text(r) == opt_text(*v),
{
    match v {
        Some(s) => Some(own(s.as_str())),
        None => None,
    }
}

/// Owned copies of a list of strings.
pub fn own_all(v: &[&str]) -> (r: Vec<String>)
    ensures
        texts(r@) == Seq::new(v@.len(), |i: int| v@[i]@),
{
    let mut out: Vec<String> = Vec::new();
    let mut i: usize = 0;
    while i < v.len()
        invariant
            i <= v@.len(),
            texts(out@) =~= Seq::new(i as nat, |j: int| v@[j]@),
        decreases v@.len() - i,
    {
        let ghost before = out@;
        let t = own(v[i]);
        out.push(t);
        assert(texts(out@) =~= texts(before).push(v@[i as int]@));
        i = i + 1;
    }
    out
}

/// Whether a list of strings holds a string.
pub fn has_text(v: &Vec<String>, s: &str) -> (r: bool)
    ensures
        r == texts(v@).contains(s@),
{
    let mut i: usize = 0;
    while i < v.len()
        invariant
            i <= v@.len(),
            forall|j: int| 0 <= j < i ==> #[trigger] texts(v@)[j] != s@,
        decreases v@.len() - i,
    {
        assert(texts(v@)[i as int] == v@[i as int]@);
        if same(v[i].as_str(), s) {
            return true;
        }
        i = i + 1;
    }
    false
}

// ---------------------------------------------------------------------------
// Character classes
// ---------------------------------------------------------------------------

/// The characters with the Unicode property `White_Space`.
pub open spec fn is_space(c: char) -> bool {
    let n = c as u32;
    ||| 0x09 <= n <= 0x0d
    ||| n == 0x20
    ||| n == 0x85
    ||| n == 0xa0
    ||| n == 0x1680
    ||| 0x2000 <= n <= 0x200a
    ||| n == 0x2028
    ||| n == 0x2029
    ||| n == 0x202f
    ||| n == 0x205f
    ||| n == 0x3000
}

/// Whether a character has the Unicode property `White_Space`.
pub fn is_white_space(c: char) -> (r: bool)
    ensures
        r == is_space(c),
{
    let n: u32 = c as u32;
    (0x09 <= n && n <= 0x0d) || n == 0x20 || n == 0x85 || n == 0xa0 || n == 0x1680 || (0x2000 <= n
        && n <= 0x200a) || n == 0x2028 || n == 0x2029 || n == 0x202f || n == 0x205f || n == 0x3000
}

pub open spec fn is_digit(c: char) -> bool {
    '0' <= c && c <= '9'
}

pub open spec fn is_lower(c: char) -> bool {
    'a' <= c && c <= 'z'
}

pub open spec fn is_upper(c: char) -> bool {
    'A' <= c && c <= 'Z'
}

pub open spec fn is_alphanumeric(c: char) -> bool {
    is_digit(c) || is_lower(c) || is_upper(c)
}

pub open spec fn is_hex(c: char) -> bool {
    is_digit(c) || ('a' <= c && c <= 'f') || ('A' <= c && c <= 'F')
}

pub open spec fn is_punctuation(c: char) -> bool {
    ||| '!' <= c && c <= '/'
    ||| ':' <= c && c <= '@'
    ||| '[' <= c && c <= '`'
    ||| '{' <= c && c <= '~'
}

pub fn digit(c: char) -> (r: bool)
    ensures
        r == is_digit(c),
{
    '0' <= c && c <= '9'
}

pub fn alphanumeric(c: char) -> (r: bool)
    ensures
        r == is_alphanumeric(c),
{
    ('0' <= c && c <= '9') || ('a' <= c && c <= 'z') || ('A' <= c && c <= 'Z')
}

pub fn hex_digit(c: char) -> (r: bool)
    ensures
        r == is_hex(c),
{
    ('0' <= c && c <= '9') || ('a' <= c && c <= 'f') || ('A' <= c && c <= 'F')
}

pub fn punctuation(c: char) -> (r: bool)
    ensures
        r == is_punctuation(c),
{
    ('!' <= c && c <= '/') || (':' <= c && c <= '@') || ('[' <= c && c <= '`') || ('{' <= c && c
        <= '~')
}

/// The lower-case form of an ASCII letter; every other character as it is.
pub open spec fn lower(c: char) -> char {
    if is_upper(c) {
        (c as u32 + 32) as char
    } else {
        c
    }
}

/// The upper-case form of an ASCII letter; every other character as it is.
pub open spec fn upper(c: char) -> char {
    if is_lower(c) {
        (c as u32 - 32) as char
    } else {
        c
    }
}

pub fn lower_char(c: char) -> (r: char)
    ensures
        r == lower(c),
{
    if 'A' <= c && c <= 'Z' {
        (c as u8 + 32) as char
    } else {
        c
    }
}

pub fn upper_char(c: char) -> (r: char)
    ensures
        r == upper(c),
{
    if 'a' <= c && c <= 'z' {
        (c as u8 - 32) as char
    } else {
        c
    }
}

pub open spec fn lowered(s: Seq<char>) -> Seq<char> {
    Seq::new(s.len(), |i: int| lower(s[i]))
}

pub open spec fn uppered(s: Seq<char>) -> Seq<char> {
    Seq::new(s.len(), |i: int| upper(s[i]))
}

/// ASCII lower case, letter by letter.
pub fn ascii_lower(s: &str) -> (r: String)
    ensures
        r@ == lowered(s@),
{
    let v = chars_of(s);
    let mut out = String::new();
    let mut i: usize = 0;
    while i < v.len()
        invariant
            v@ == s@,
            i <= v@.len(),
            out@ =~= lowered(s@).take(i as int),
        decreases v@.len() - i,
    {
        push_char(&mut out, lower_char(v[i]));
        i = i + 1;
    }
    out
}

/// Whether every character is ASCII.
pub open spec fn all_ascii(s: Seq<char>) -> bool {
    forall|i: int| 0 <= i < s.len() ==> (#[trigger] s[i] as u32) < 0x80
}

/// What `str::to_lowercase` returns.
pub uninterp spec fn unicode_lowercase(s: Seq<char>) -> Seq<char>;

/// What `str::to_uppercase` returns.
pub uninterp spec fn unicode_uppercase(s: Seq<char>) -> Seq<char>;

/// `str::to_lowercase`: the Unicode lower case of a string, which on ASCII text is the
/// lower case of each letter.
#[verifier::external_body]
pub(crate) fn to_lowercase(s: &str) -> (r: String)
    ensures
        r@ == unicode_lowercase(s@),
        all_ascii(s@) ==> r@ == lowered(s@),
{
    s.to_lowercase()
}

/// `str::to_uppercase`: the Unicode upper case of a string, which on ASCII text is the
/// upper case of each letter.
#[verifier::external_body]
pub(crate) fn to_uppercase(s: &str) -> (r: String)
    ensures
        r@ == unicode_uppercase(s@),
        all_ascii(s@) ==> r@ == uppered(s@),
{
    s.to_uppercase()
}

// ---------------------------------------------------------------------------
// Searching
// ---------------------------------------------------------------------------

/// The first position at or after `from` whose character satisfies `f`; the length if none does.
pub open spec fn find_from(s: Seq<char>, f: spec_fn(char) -> bool, from: int) -> int
    decreases s.len() - from,
{
    if from >= s.len() {
        s.len() as int
    } else if f(s[from]) {
        from
    } else {
        find_from(s, f, from + 1)
    }
}

pub proof fn lemma_find_from(s: Seq<char>, f: spec_fn(char) -> bool, from: int)
    requires
        0 <= from <= s.len(),
    ensures
        from <= find_from(s, f, from) <= s.len(),
        find_from(s, f, from) < s.len() ==> f(s[find_from(s, f, from)]),
        forall|j: int| from <= j < find_from(s, f, from) ==> !f(#[trigger] s[j]),
    decreases s.len() - from,
{
    if from < s.len() && !f(s[from]) {
        lemma_find_from(s, f, from + 1);
    }
}

/// The first position that `lemma_find_from` describes is the only one.
pub proof fn lemma_find_from_is(s: Seq<char>, f: spec_fn(char) -> bool, from: int, at: int)
    requires
        0 <= from <= at <= s.len(),
        forall|j: int| from <= j < at ==> !f(#[trigger] s[j]),
        at < s.len() ==> f(s[at]),
    ensures
        find_from(s, f, from) == at,
    decreases at - from,
{
    if from < at {
        lemma_find_from_is(s, f, from + 1, at);
    }
}

fn find_mask(v: &[char], mask: &[bool], from: usize, Ghost(f): Ghost<spec_fn(char) -> bool>) -> (r:
    usize)
    requires
        from <= v@.len(),
        mask@.len() == v@.len(),
        forall|j: int| 0 <= j < v@.len() ==> #[trigger] mask@[j] == f(v@[j]),
    ensures
        r == find_from(v@, f, from as int),
        from <= r <= v@.len(),
{
    let mut i: usize = from;
    while i < v.len() && !mask[i]
        invariant
            from <= i <= v@.len(),
            mask@.len() == v@.len(),
            forall|j: int| 0 <= j < v@.len() ==> #[trigger] mask@[j] == f(v@[j]),
            forall|j: int| from <= j < i ==> !f(#[trigger] v@[j]),
        decreases v@.len() - i,
    {
        assert(mask@[i as int] == f(v@[i as int]));
        i = i + 1;
    }
    proof {
        if i < v@.len() {
            assert(mask@[i as int] == f(v@[i as int]));
        }
        lemma_find_from_is(v@, f, from as int, i as int);
    }
    i
}

/// Whether `p` stands in `s` at position `i`.
pub open spec fn stands_at(s: Seq<char>, p: Seq<char>, i: int) -> bool {
    0 <= i && i + p.len() <= s.len() && s.subrange(i, i + p.len()) == p
}

/// Whether `p` occurs in `s`.
pub open spec fn occurs(s: Seq<char>, p: Seq<char>) -> bool {
    exists|i: int| stands_at(s, p, i)
}

pub fn found_at(s: &[char], p: &[char], i: usize) -> (r: bool)
    ensures
        r == stands_at(s@, p@, i as int),
{
    let n: usize = s.len();
    if i > n || n - i < p.len() {
        return false;
    }
    let mut j: usize = 0;
    while j < p.len()
        invariant
            n == s@.len(),
            i + p@.len() <= n,
            j <= p@.len(),
            forall|k: int| 0 <= k < j ==> s@[i + k] == #[trigger] p@[k],
        decreases p@.len() - j,
    {
        if s[i + j] != p[j] {
            proof {
                let w = s@.subrange(i as int, i + p@.len());
                assert(w[j as int] == s@[i + j]);
            }
            return false;
        }
        j = j + 1;
    }
    assert(s@.subrange(i as int, i + p@.len()) =~= p@);
    true
}

/// Whether a string occurs in another.
pub fn contains(s: &str, p: &str) -> (r: bool)
    ensures
        r == occurs(s@, p@),
{
    let sv = chars_of(s);
    let pv = chars_of(p);
    let mut i: usize = 0;
    while i < sv.len()
        invariant
            sv@ == s@,
            pv@ == p@,
            i <= sv@.len(),
            forall|k: int| 0 <= k < i ==> !stands_at(s@, p@, k),
        decreases sv@.len() - i,
    {
        if found_at(&sv, &pv, i) {
            return true;
        }
        i = i + 1;
    }
    let r = found_at(&sv, &pv, i);
    proof {
        if !r {
            assert forall|k: int| !stands_at(s@, p@, k) by {}
        }
    }
    r
}

/// Whether a character occurs in a string.
pub fn contains_char(s: &str, c: char) -> (r: bool)
    ensures
        r == s@.contains(c),
{
    let v = chars_of(s);
    let mut i: usize = 0;
    while i < v.len()
        invariant
            v@ == s@,
            i <= v@.len(),
            forall|k: int| 0 <= k < i ==> v@[k] != c,
        decreases v@.len() - i,
    {
        if v[i] == c {
            return true;
        }
        i = i + 1;
    }
    false
}

/// Whether `s` begins with `p`.
pub fn starts_with(s: &str, p: &str) -> (r: bool)
    ensures
        r == stands_at(s@, p@, 0),
{
    found_at(&chars_of(s), &chars_of(p), 0)
}

/// What is left of `s` behind the prefix `p`.
pub open spec fn behind(s: Seq<char>, p: Seq<char>) -> Option<Seq<char>> {
    if stands_at(s, p, 0) {
        Some(s.skip(p.len() as int))
    } else {
        None
    }
}

/// What is left of `s` behind the prefix `p`; `None` where `s` does not begin with `p`.
pub fn strip_prefix(s: &str, p: &str) -> (r: Option<String>)
    ensures
        opt_text(r) == behind(s@, p@),
{
    let sv = chars_of(s);
    let pv = chars_of(p);
    if found_at(&sv, &pv, 0) {
        let rest = text_of(slice_subrange(&sv, pv.len(), sv.len()));
        assert(rest@ =~= s@.skip(p@.len() as int));
        Some(rest)
    } else {
        None
    }
}

/// Whether `s` ends with `p`.
pub open spec fn ends_in(s: Seq<char>, p: Seq<char>) -> bool {
    stands_at(s, p, s.len() - p.len())
}

pub fn ends_with(s: &str, p: &str) -> (r: bool)
    ensures
        r == ends_in(s@, p@),
{
    let sv = chars_of(s);
    let pv = chars_of(p);
    if sv.len() < pv.len() {
        false
    } else {
        found_at(&sv, &pv, sv.len() - pv.len())
    }
}

/// The last position before `n` at which `c` stands; `-1` if there is none.
pub open spec fn last_at(s: Seq<char>, c: char, n: int) -> int
    decreases n,
{
    if n <= 0 {
        -1
    } else if s[n - 1] == c {
        n - 1
    } else {
        last_at(s, c, n - 1)
    }
}

/// What stands behind the last `c`; all of `s` where there is none.
pub open spec fn behind_last(s: Seq<char>, c: char) -> Seq<char> {
    s.skip(last_at(s, c, s.len() as int) + 1)
}

/// The last position at which a character stands.
pub fn rfind_char(v: &[char], c: char) -> (r: Option<usize>)
    ensures
        match r {
            Some(i) => i < v@.len() && i == last_at(v@, c, v@.len() as int),
            None => last_at(v@, c, v@.len() as int) == -1,
        },
{
    let mut n: usize = v.len();
    while n > 0
        invariant
            n <= v@.len(),
            last_at(v@, c, n as int) == last_at(v@, c, v@.len() as int),
        decreases n,
    {
        if v[n - 1] == c {
            return Some(n - 1);
        }
        n = n - 1;
    }
    None
}

/// What stands behind the last `c`; the whole string where there is none.
pub fn after_last(s: &str, c: char) -> (r: String)
    ensures
        r@ == behind_last(s@, c),
{
    let v = chars_of(s);
    match rfind_char(&v, c) {
        Some(i) => {
            let n: usize = v.len();
            let r = text_of(slice_subrange(&v, i + 1, n));
            assert(r@ =~= behind_last(s@, c));
            r
        },
        None => {
            assert(s@.skip(0) =~= s@);
            own(s)
        },
    }
}

// ---------------------------------------------------------------------------
// Trimming and splitting
// ---------------------------------------------------------------------------

pub open spec fn trim_end_at(s: Seq<char>, n: int) -> int
    decreases n,
{
    if n <= 0 {
        0
    } else if is_space(s[n - 1]) {
        trim_end_at(s, n - 1)
    } else {
        n
    }
}

/// `s` without the white space at both ends.
pub open spec fn trimmed(s: Seq<char>) -> Seq<char> {
    let a = find_from(s, |c: char| !is_space(c), 0);
    if a >= s.len() {
        Seq::empty()
    } else {
        s.subrange(a, trim_end_at(s, s.len() as int))
    }
}

/// `s` without the white space at its start.
pub open spec fn trimmed_start(s: Seq<char>) -> Seq<char> {
    s.skip(find_from(s, |c: char| !is_space(c), 0))
}

proof fn lemma_trim_end(s: Seq<char>, a: int, n: int)
    requires
        0 <= a < n <= s.len(),
        !is_space(s[a]),
    ensures
        a < trim_end_at(s, n) <= n,
    decreases n,
{
    if is_space(s[n - 1]) {
        assert(a != n - 1);
        lemma_trim_end(s, a, n - 1);
    }
}

fn space_mask(v: &[char]) -> (r: Vec<bool>)
    ensures
        r@.len() == v@.len(),
        forall|j: int| 0 <= j < v@.len() ==> #[trigger] r@[j] == is_space(v@[j]),
{
    let mut m: Vec<bool> = Vec::new();
    let mut i: usize = 0;
    while i < v.len()
        invariant
            i <= v@.len(),
            m@.len() == i,
            forall|j: int| 0 <= j < i ==> #[trigger] m@[j] == is_space(v@[j]),
        decreases v@.len() - i,
    {
        m.push(is_white_space(v[i]));
        i = i + 1;
    }
    m
}

fn first_non_space(v: &[char]) -> (r: usize)
    ensures
        r == find_from(v@, |c: char| !is_space(c), 0),
        r <= v@.len(),
        r < v@.len() ==> !is_space(v@[r as int]),
{
    let ghost f = |c: char| !is_space(c);
    let mut a: usize = 0;
    while a < v.len() && is_white_space(v[a])
        invariant
            a <= v@.len(),
            forall|j: int| 0 <= j < a ==> is_space(#[trigger] v@[j]),
        decreases v@.len() - a,
    {
        a = a + 1;
    }
    proof {
        lemma_find_from_is(v@, f, 0, a as int);
    }
    a
}

/// The slice without the white space at both ends.
pub fn trim_chars(v: &[char]) -> (r: &[char])
    ensures
        r@ == trimmed(v@),
{
    let a = first_non_space(v);
    if a == v.len() {
        let r = slice_subrange(v, a, a);
        assert(r@ =~= Seq::<char>::empty());
        return r;
    }
    let mut b: usize = v.len();
    proof {
        lemma_trim_end(v@, a as int, v@.len() as int);
    }
    while is_white_space(v[b - 1])
        invariant
            a < b <= v@.len(),
            !is_space(v@[a as int]),
            trim_end_at(v@, b as int) == trim_end_at(v@, v@.len() as int),
        decreases b,
    {
        proof {
            lemma_trim_end(v@, a as int, b as int);
        }
        b = b - 1;
    }
    slice_subrange(v, a, b)
}

/// The string without the white space at both ends.
pub fn trim(s: &str) -> (r: String)
    ensures
        r@ == trimmed(s@),
{
    let v = chars_of(s);
    text_of(trim_chars(&v))
}

/// The string without the white space at its start.
pub fn trim_start(s: &str) -> (r: String)
    ensures
        r@ == trimmed_start(s@),
{
    let v = chars_of(s);
    let a = first_non_space(&v);
    let r = text_of(slice_subrange(&v, a, v.len()));
    assert(r@ =~= trimmed_start(s@));
    r
}

/// The pieces of `s[start..]` between the characters that satisfy `f`.
pub open spec fn split_from(s: Seq<char>, f: spec_fn(char) -> bool, start: int) -> Seq<Seq<char>>
    decreases s.len() - start,
{
    if 0 <= start <= s.len() {
        let i = find_from(s, f, start);
        proof {
            lemma_find_from(s, f, start);
        }
        if i >= s.len() {
            seq![s.subrange(start, s.len() as int)]
        } else {
            seq![s.subrange(start, i)] + split_from(s, f, i + 1)
        }
    } else {
        Seq::empty()
    }
}

/// The pieces of `s` between the characters that satisfy `f`.
pub open spec fn split_by(s: Seq<char>, f: spec_fn(char) -> bool) -> Seq<Seq<char>> {
    split_from(s, f, 0)
}

/// The last piece of a text ends as the text does.
pub proof fn lemma_split_end(s: Seq<char>, f: spec_fn(char) -> bool, start: int)
    requires
        0 <= start <= s.len(),
    ensures
        split_from(s, f, start).len() > 0,
        split_from(s, f, start).last().len() > 0 ==> s.len() > 0
            && split_from(s, f, start).last().last() == s.last(),
    decreases s.len() - start,
{
    let i = find_from(s, f, start);
    lemma_find_from(s, f, start);
    if i < s.len() {
        lemma_split_end(s, f, i + 1);
        let rest = split_from(s, f, i + 1);
        let all = split_from(s, f, start);
        assert(all == seq![s.subrange(start, i)] + rest);
        assert(all.last() == rest.last());
    }
}

fn split_mask(v: &[char], mask: &[bool], Ghost(f): Ghost<spec_fn(char) -> bool>) -> (r: Vec<String>)
    requires
        mask@.len() == v@.len(),
        forall|j: int| 0 <= j < v@.len() ==> #[trigger] mask@[j] == f(v@[j]),
    ensures
        texts(r@) == split_by(v@, f),
{
    let mut out: Vec<String> = Vec::new();
    let mut start: usize = 0;
    loop
        invariant
            start <= v@.len(),
            mask@.len() == v@.len(),
            forall|j: int| 0 <= j < v@.len() ==> #[trigger] mask@[j] == f(v@[j]),
            texts(out@) + split_from(v@, f, start as int) =~= split_by(v@, f),
        decreases v@.len() - start,
    {
        let i = find_mask(v, mask, start, Ghost(f));
        let piece = text_of(slice_subrange(v, start, i));
        let ghost before = out@;
        out.push(piece);
        assert(texts(out@) =~= texts(before).push(piece@));
        if i >= v.len() {
            assert(split_from(v@, f, start as int) =~= seq![piece@]);
            return out;
        }
        assert(split_from(v@, f, start as int) =~= seq![piece@] + split_from(v@, f, i + 1));
        start = i + 1;
    }
}

/// The pieces between the occurrences of one character.
pub fn split_char(s: &str, c: char) -> (r: Vec<String>)
    ensures
        texts(r@) == split_by(s@, |x: char| x == c),
{
    let v = chars_of(s);
    let mut m: Vec<bool> = Vec::new();
    let mut i: usize = 0;
    while i < v.len()
        invariant
            i <= v@.len(),
            m@.len() == i,
            forall|j: int| 0 <= j < i ==> #[trigger] m@[j] == (v@[j] == c),
        decreases v@.len() - i,
    {
        m.push(v[i] == c);
        i = i + 1;
    }
    split_mask(&v, &m, Ghost(|x: char| x == c))
}

/// The pieces between the occurrences of two characters.
pub fn split_at_either(s: &str, a: char, b: char) -> (r: Vec<String>)
    ensures
        texts(r@) == split_by(s@, is_either(a, b)),
{
    let v = chars_of(s);
    let mut m: Vec<bool> = Vec::new();
    let mut i: usize = 0;
    while i < v.len()
        invariant
            i <= v@.len(),
            m@.len() == i,
            forall|j: int| 0 <= j < i ==> #[trigger] m@[j] == (v@[j] == a || v@[j] == b),
        decreases v@.len() - i,
    {
        m.push(v[i] == a || v[i] == b);
        i = i + 1;
    }
    split_mask(&v, &m, Ghost(is_either(a, b)))
}

/// Whether a character is one of two.
pub open spec fn is_either(a: char, b: char) -> spec_fn(char) -> bool {
    |x: char| x == a || x == b
}

/// The pieces between the characters that are no ASCII digits.
pub fn split_at_non_digits(s: &str) -> (r: Vec<String>)
    ensures
        texts(r@) == split_by(s@, |x: char| !is_digit(x)),
{
    let v = chars_of(s);
    let mut m: Vec<bool> = Vec::new();
    let mut i: usize = 0;
    while i < v.len()
        invariant
            i <= v@.len(),
            m@.len() == i,
            forall|j: int| 0 <= j < i ==> #[trigger] m@[j] == !is_digit(v@[j]),
        decreases v@.len() - i,
    {
        m.push(!digit(v[i]));
        i = i + 1;
    }
    split_mask(&v, &m, Ghost(|x: char| !is_digit(x)))
}

/// A line without the carriage return that stood before its line feed.
pub open spec fn without_cr(s: Seq<char>) -> Seq<char> {
    if s.len() > 0 && s.last() == '\r' {
        s.drop_last()
    } else {
        s
    }
}

/// The lines of `s[start..]`: what stands before each line feed, without a carriage return
/// directly before it, and what follows the last line feed, if anything.
pub open spec fn lines_from(s: Seq<char>, start: int) -> Seq<Seq<char>>
    decreases s.len() - start,
{
    if 0 <= start < s.len() {
        let i = find_from(s, |c: char| c == '\n', start);
        proof {
            lemma_find_from(s, |c: char| c == '\n', start);
        }
        if i >= s.len() {
            seq![s.subrange(start, s.len() as int)]
        } else {
            seq![without_cr(s.subrange(start, i))] + lines_from(s, i + 1)
        }
    } else {
        Seq::empty()
    }
}

/// The lines of a text.
pub open spec fn lines_of(s: Seq<char>) -> Seq<Seq<char>> {
    lines_from(s, 0)
}

/// The lines of a text, without their line endings.
pub fn lines(s: &str) -> (r: Vec<String>)
    ensures
        texts(r@) == lines_of(s@),
{
    let v = chars_of(s);
    let ghost f = |c: char| c == '\n';
    let mut m: Vec<bool> = Vec::new();
    let mut i: usize = 0;
    while i < v.len()
        invariant
            i <= v@.len(),
            m@.len() == i,
            forall|j: int| 0 <= j < i ==> #[trigger] m@[j] == (v@[j] == '\n'),
        decreases v@.len() - i,
    {
        m.push(v[i] == '\n');
        i = i + 1;
    }
    let mut out: Vec<String> = Vec::new();
    let mut start: usize = 0;
    while start < v.len()
        invariant
            v@ == s@,
            f == (|c: char| c == '\n'),
            start <= v@.len(),
            m@.len() == v@.len(),
            forall|j: int| 0 <= j < v@.len() ==> #[trigger] m@[j] == f(v@[j]),
            texts(out@) + lines_from(v@, start as int) =~= lines_of(v@),
        decreases v@.len() - start,
    {
        let e = find_mask(&v, &m, start, Ghost(f));
        let ghost before = out@;
        if e >= v.len() {
            let piece = text_of(slice_subrange(&v, start, e));
            out.push(piece);
            assert(texts(out@) =~= texts(before).push(piece@));
            assert(lines_from(v@, start as int) =~= seq![piece@]);
            return out;
        }
        let mut stop: usize = e;
        if stop > start && v[stop - 1] == '\r' {
            stop = stop - 1;
        }
        let piece = text_of(slice_subrange(&v, start, stop));
        assert(piece@ =~= without_cr(v@.subrange(start as int, e as int)));
        out.push(piece);
        assert(texts(out@) =~= texts(before).push(piece@));
        assert(lines_from(v@, start as int) =~= seq![piece@] + lines_from(v@, e + 1));
        start = e + 1;
    }
    out
}

/// The maximal runs of `s[start..]` that hold no white space.
pub open spec fn words_from(s: Seq<char>, start: int) -> Seq<Seq<char>>
    decreases s.len() - start,
{
    if 0 <= start < s.len() {
        let b = find_from(s, |c: char| !is_space(c), start);
        proof {
            lemma_find_from(s, |c: char| !is_space(c), start);
        }
        if b >= s.len() {
            Seq::empty()
        } else {
            let e = find_from(s, |c: char| is_space(c), b);
            proof {
                lemma_find_from(s, |c: char| is_space(c), b);
            }
            seq![s.subrange(b, e)] + words_from(s, e)
        }
    } else {
        Seq::empty()
    }
}

/// The words of a text: its maximal runs without white space.
pub open spec fn words_of(s: Seq<char>) -> Seq<Seq<char>> {
    words_from(s, 0)
}

/// Whether the characters from `b` up to `e` are one whole word of `s`.
pub open spec fn is_run(s: Seq<char>, b: int, e: int) -> bool {
    &&& 0 <= b < e <= s.len()
    &&& forall|j: int| b <= j < e ==> !is_space(#[trigger] s[j])
    &&& b == 0 || is_space(s[b - 1])
    &&& e == s.len() || is_space(s[e])
}

proof fn lemma_words_from_are_runs(s: Seq<char>, start: int, i: int)
    requires
        0 <= start <= s.len(),
        start == 0 || start == s.len() || is_space(s[start]),
        0 <= i < words_from(s, start).len(),
    ensures
        exists|b: int, e: int|
            #[trigger] is_run(s, b, e) && words_from(s, start)[i] == s.subrange(b, e),
    decreases s.len() - start,
{
    let fo = |c: char| !is_space(c);
    let fs = |c: char| is_space(c);
    let b = find_from(s, fo, start);
    lemma_find_from(s, fo, start);
    let e = find_from(s, fs, b);
    lemma_find_from(s, fs, b);
    assert(words_from(s, start) == seq![s.subrange(b, e)] + words_from(s, e));
    assert(fo(s[b]));
    if b > start {
        assert(!fo(s[b - 1]));
    }
    assert forall|j: int| b <= j < e implies !is_space(#[trigger] s[j]) by {
        assert(!fs(s[j]));
    }
    if e < s.len() {
        assert(fs(s[e]));
    }
    assert(e != b);
    if i == 0 {
        assert(is_run(s, b, e));
    } else {
        lemma_words_from_are_runs(s, e, i - 1);
        assert(words_from(s, start)[i] == words_from(s, e)[i - 1]);
    }
}

/// Each of the words of a text is a run of it.
pub proof fn lemma_words_are_runs(s: Seq<char>, i: int)
    requires
        0 <= i < words_of(s).len(),
    ensures
        exists|b: int, e: int| #[trigger] is_run(s, b, e) && words_of(s)[i] == s.subrange(b, e),
{
    lemma_words_from_are_runs(s, 0, i);
}

/// The words of a text.
pub fn words(s: &str) -> (r: Vec<String>)
    ensures
        texts(r@) == words_of(s@),
{
    let v = chars_of(s);
    let spaces = space_mask(&v);
    let mut others: Vec<bool> = Vec::new();
    let ghost fs = |c: char| is_space(c);
    let ghost fo = |c: char| !is_space(c);
    let mut i: usize = 0;
    while i < v.len()
        invariant
            i <= v@.len(),
            others@.len() == i,
            spaces@.len() == v@.len(),
            forall|j: int| 0 <= j < v@.len() ==> #[trigger] spaces@[j] == is_space(v@[j]),
            forall|j: int| 0 <= j < i ==> #[trigger] others@[j] == !is_space(v@[j]),
        decreases v@.len() - i,
    {
        others.push(!spaces[i]);
        i = i + 1;
    }
    let mut out: Vec<String> = Vec::new();
    let mut start: usize = 0;
    while start < v.len()
        invariant
            v@ == s@,
            fs == (|c: char| is_space(c)),
            fo == (|c: char| !is_space(c)),
            start <= v@.len(),
            spaces@.len() == v@.len(),
            others@.len() == v@.len(),
            forall|j: int| 0 <= j < v@.len() ==> #[trigger] spaces@[j] == fs(v@[j]),
            forall|j: int| 0 <= j < v@.len() ==> #[trigger] others@[j] == fo(v@[j]),
            texts(out@) + words_from(v@, start as int) =~= words_of(v@),
        decreases v@.len() - start,
    {
        let b = find_mask(&v, &others, start, Ghost(fo));
        if b >= v.len() {
            assert(words_from(v@, start as int) =~= Seq::<Seq<char>>::empty());
            return out;
        }
        let e = find_mask(&v, &spaces, b, Ghost(fs));
        proof {
            lemma_find_from(v@, fo, start as int);
            lemma_find_from(v@, fs, b as int);
        }
        let ghost before = out@;
        let piece = text_of(slice_subrange(&v, b, e));
        out.push(piece);
        assert(texts(out@) =~= texts(before).push(piece@));
        assert(words_from(v@, start as int) =~= seq![piece@] + words_from(v@, e as int));
        start = e;
    }
    out
}

/// The pieces put one after another with `sep` between them.
pub open spec fn joined(parts: Seq<Seq<char>>, sep: Seq<char>) -> Seq<char>
    decreases parts.len(),
{
    if parts.len() == 0 {
        Seq::empty()
    } else if parts.len() == 1 {
        parts[0]
    } else {
        joined(parts.drop_last(), sep) + sep + parts.last()
    }
}

/// Words put one after another with a space between them are the words of what comes out.
pub proof fn lemma_joined_runs(parts: Seq<Seq<char>>, b: int, e: int)
    requires
        forall|i: int| 0 <= i < parts.len() ==> (#[trigger] parts[i]).len() > 0,
        forall|i: int, j: int|
            0 <= i < parts.len() && 0 <= j < parts[i].len() ==> !is_space(#[trigger] parts[i][j]),
        is_run(joined(parts, " "@), b, e),
    ensures
        parts.contains(joined(parts, " "@).subrange(b, e)),
    decreases parts.len(),
{
    reveal_strlit(" ");
    let s = joined(parts, " "@);
    if parts.len() == 1 {
        assert(parts[0] == s);
        if b > 0 {
            assert(!is_space(parts[0][b - 1]));
        }
        if e < s.len() {
            assert(!is_space(parts[0][e]));
        }
        assert(s.subrange(b, e) =~= parts[0]);
    } else if parts.len() > 1 {
        let front = parts.drop_last();
        let t = joined(front, " "@);
        let n = t.len() as int;
        let last = parts.last();
        assert(s == t + " "@ + last);
        assert(is_space(s[n]));
        assert forall|j: int| n < j < s.len() implies !is_space(#[trigger] s[j]) by {
            assert(s[j] == parts[parts.len() - 1][j - n - 1]);
        }
        assert forall|i: int, j: int| 0 <= i < front.len() && 0 <= j < front[i].len() implies
            !is_space(#[trigger] front[i][j]) by {
            assert(front[i] == parts[i]);
            assert(!is_space(parts[i][j]));
        }
        if e <= n {
            assert forall|j: int| b <= j < e implies !is_space(#[trigger] t[j]) by {
                assert(s[j] == t[j]);
            }
            if b > 0 {
                assert(s[b - 1] == t[b - 1]);
            }
            if e < n {
                assert(s[e] == t[e]);
            }
            lemma_joined_runs(front, b, e);
            assert(s.subrange(b, e) =~= t.subrange(b, e));
            let i = choose|i: int| 0 <= i < front.len() && front[i] == t.subrange(b, e);
            assert(parts[i] == s.subrange(b, e));
        } else {
            assert(b > n) by {
                if b <= n {
                    assert(!is_space(s[n]));
                }
            }
            assert(b == n + 1);
            assert(e == s.len());
            assert(s.subrange(b, e) =~= last);
            assert(parts[parts.len() - 1] == s.subrange(b, e));
        }
    }
}

/// The strings of a list with a separator between them.
pub fn join(parts: &[String], sep: &str) -> (r: String)
    ensures
        r@ == joined(texts(parts@), sep@),
{
    let mut out = String::new();
    let mut i: usize = 0;
    while i < parts.len()
        invariant
            i <= parts@.len(),
            out@ == joined(texts(parts@).take(i as int), sep@),
        decreases parts@.len() - i,
    {
        proof {
            let t = texts(parts@).take(i + 1);
            assert(t.drop_last() =~= texts(parts@).take(i as int));
            assert(t.last() == parts@[i as int]@);
        }
        if i > 0 {
            out.append(sep);
        }
        out.append(parts[i].as_str());
        proof {
            if i == 0 {
                assert(out@ =~= parts@[0]@);
            }
        }
        i = i + 1;
    }
    assert(texts(parts@).take(i as int) =~= texts(parts@));
    out
}

/// The first `n` characters of `s`; all of it where it is shorter.
pub open spec fn first_chars(s: Seq<char>, n: int) -> Seq<char> {
    if s.len() <= n {
        s
    } else {
        s.take(n)
    }
}

/// The first `n` characters of a string.
pub fn take_chars(s: &str, n: usize) -> (r: String)
    ensures
        r@ == first_chars(s@, n as int),
{
    let v = chars_of(s);
    let e: usize = if v.len() <= n { v.len() } else { n };
    let r = text_of(slice_subrange(&v, 0, e));
    assert(r@ =~= first_chars(s@, n as int));
    r
}

/// `s[i..]` with every occurrence of `from`, found from left to right and without overlap,
/// replaced by `to`.
pub open spec fn replaced_from(s: Seq<char>, from: Seq<char>, to: Seq<char>, i: int) -> Seq<char>
    decreases s.len() - i,
{
    if i >= s.len() {
        Seq::empty()
    } else if from.len() > 0 && stands_at(s, from, i) {
        to + replaced_from(s, from, to, i + from.len())
    } else if from.len() == 0 {
        seq![s[i]] + to + replaced_from(s, from, to, i + 1)
    } else {
        seq![s[i]] + replaced_from(s, from, to, i + 1)
    }
}

/// `s` with every occurrence of `from` replaced by `to`. The empty `from` occurs before each
/// character and at the end.
pub open spec fn replaced(s: Seq<char>, from: Seq<char>, to: Seq<char>) -> Seq<char> {
    if from.len() == 0 {
        to + replaced_from(s, from, to, 0)
    } else {
        replaced_from(s, from, to, 0)
    }
}

/// The string with every occurrence of `from` replaced by `to`.
pub fn replace(s: &str, from: &str, to: &str) -> (r: String)
    ensures
        r@ == replaced(s@, from@, to@),
{
    let v = chars_of(s);
    let p = chars_of(from);
    let mut out = String::new();
    if p.len() == 0 {
        out.append(to);
    }
    let mut i: usize = 0;
    while i < v.len()
        invariant
            v@ == s@,
            p@ == from@,
            i <= v@.len(),
            out@ + replaced_from(v@, p@, to@, i as int) =~= replaced(s@, from@, to@),
        decreases v@.len() - i,
    {
        let ghost before = out@;
        if p.len() > 0 && found_at(&v, &p, i) {
            out.append(to);
            i = i + p.len();
            assert(out@ + replaced_from(v@, p@, to@, i as int) =~= before + (to@ + replaced_from(
                v@,
                p@,
                to@,
                i as int,
            )));
        } else {
            push_char(&mut out, v[i]);
            if p.len() == 0 {
                out.append(to);
                assert(out@ + replaced_from(v@, p@, to@, i + 1) =~= before + (seq![v@[i as int]]
                    + to@ + replaced_from(v@, p@, to@, i + 1)));
            } else {
                assert(out@ + replaced_from(v@, p@, to@, i + 1) =~= before + (seq![v@[i as int]]
                    + replaced_from(v@, p@, to@, i + 1)));
            }
            i = i + 1;
        }
    }
    out
}

// ---------------------------------------------------------------------------
// Numbers
// ---------------------------------------------------------------------------

pub open spec fn digit_char(d: nat) -> char {
    (48 + d) as char
}

/// The decimal digits of a number, without leading zeros.
pub open spec fn dec(n: nat) -> Seq<char>
    decreases n,
{
    if n < 10 {
        seq![digit_char(n)]
    } else {
        dec(n / 10).push(digit_char(n % 10))
    }
}

/// The decimal digits of an integer, with a minus sign before those of a negative one.
pub open spec fn dec_int(n: int) -> Seq<char> {
    if n < 0 {
        seq!['-'] + dec((-n) as nat)
    } else {
        dec(n as nat)
    }
}

/// A number in decimal.
pub fn decimal(n: u64) -> (r: String)
    ensures
        r@ == dec(n as nat),
    decreases n,
{
    let c = (48u8 + (n % 10) as u8) as char;
    if n < 10 {
        let mut s = String::new();
        push_char(&mut s, c);
        assert(s@ =~= seq![digit_char(n as nat)]);
        s
    } else {
        let mut s = decimal(n / 10);
        push_char(&mut s, c);
        s
    }
}

/// A signed number in decimal.
pub fn decimal_signed(n: i64) -> (r: String)
    ensures
        r@ == dec_int(n as int),
{
    if n < 0 {
        let m: i128 = -(n as i128);
        let d = decimal(m as u64);
        let r = cat2("-", d.as_str());
        proof {
            reveal_strlit("-");
            assert("-"@ =~= seq!['-']);
        }
        r
    } else {
        decimal(n as u64)
    }
}

pub open spec fn hex_char(d: nat, capital: bool) -> char {
    if d < 10 {
        (48 + d) as char
    } else if capital {
        (55 + d) as char
    } else {
        (87 + d) as char
    }
}

/// The last `width` hexadecimal digits of a number, leading zeros kept.
pub open spec fn hex(n: nat, width: nat, capital: bool) -> Seq<char>
    decreases width,
{
    if width == 0 {
        Seq::empty()
    } else {
        hex(n / 16, (width - 1) as nat, capital).push(hex_char(n % 16, capital))
    }
}

/// The last `width` hexadecimal digits of a number, leading zeros kept.
pub fn hex_text(n: u64, width: usize, capital: bool) -> (r: String)
    ensures
        r@ == hex(n as nat, width as nat, capital),
    decreases width,
{
    if width == 0 {
        let s = String::new();
        assert(s@ =~= Seq::<char>::empty());
        s
    } else {
        let mut s = hex_text(n / 16, width - 1, capital);
        let d: u8 = (n % 16) as u8;
        let c = if d < 10 {
            (48u8 + d) as char
        } else if capital {
            (55u8 + d) as char
        } else {
            (87u8 + d) as char
        };
        push_char(&mut s, c);
        s
    }
}

pub open spec fn all_digits(s: Seq<char>) -> bool {
    forall|i: int| 0 <= i < s.len() ==> is_digit(#[trigger] s[i])
}

/// The number that a sequence of decimal digits denotes.
pub open spec fn digits_value(s: Seq<char>) -> nat
    decreases s.len(),
{
    if s.len() == 0 {
        0
    } else {
        10 * digits_value(s.drop_last()) + (s.last() as nat - 48) as nat
    }
}

/// The unsigned number that `s` denotes in decimal, with an optional plus sign before it;
/// `None` where `s` is no such numeral or the number is above `max`.
pub open spec fn parsed(s: Seq<char>, max: nat) -> Option<nat> {
    let body = if s.len() > 0 && s[0] == '+' {
        s.skip(1)
    } else {
        s
    };
    if body.len() > 0 && all_digits(body) && digits_value(body) <= max {
        Some(digits_value(body))
    } else {
        None
    }
}

proof fn lemma_digits_value_grows(s: Seq<char>, n: int)
    requires
        0 <= n <= s.len(),
        all_digits(s),
    ensures
        digits_value(s.take(n)) <= digits_value(s),
    decreases s.len() - n,
{
    if n < s.len() {
        lemma_digits_value_grows(s, n + 1);
        assert(s.take(n + 1).drop_last() =~= s.take(n));
    } else {
        assert(s.take(n) =~= s);
    }
}

/// Reads an unsigned decimal number of at most `max`.
pub fn parse_number(s: &str, max: u64) -> (r: Option<u64>)
    ensures
        match r {
            Some(n) => parsed(s@, max as nat) == Some(n as nat),
            None => parsed(s@, max as nat) is None,
        },
{
    let v = chars_of(s);
    let start: usize = if v.len() > 0 && v[0] == '+' {
        1
    } else {
        0
    };
    let ghost body = s@.skip(start as int);
    proof {
        if start == 0 {
            assert(body =~= s@);
        }
    }
    if v.len() == start {
        return None;
    }
    let mut n: u64 = 0;
    let mut i: usize = start;
    while i < v.len()
        invariant
            v@ == s@,
            start <= 1,
            start <= i <= v@.len(),
            body == s@.skip(start as int),
            body.len() > 0,
            start == 1 <==> (s@.len() > 0 && s@[0] == '+'),
            start == 0 ==> body == s@,
            forall|j: int| 0 <= j < i - start ==> is_digit(#[trigger] body[j]),
            n == digits_value(body.take(i - start)),
            n <= max,
        decreases v@.len() - i,
    {
        let c = v[i];
        assert(body[i - start] == c);
        if !digit(c) {
            return None;
        }
        let d: u64 = c as u64 - 48;
        proof {
            assert(body.take(i - start + 1).drop_last() =~= body.take(i - start));
            if all_digits(body) {
                lemma_digits_value_grows(body, i - start + 1);
            }
        }
        if n > max / 10 || d > max - n * 10 {
            return None;
        }
        n = n * 10 + d;
        i = i + 1;
    }
    assert(body.take(i - start) =~= body);
    Some(n)
}

pub open spec fn hex_value_of(c: char) -> nat {
    if is_digit(c) {
        (c as nat - 48) as nat
    } else if 'a' <= c && c <= 'f' {
        (c as nat - 87) as nat
    } else {
        (c as nat - 55) as nat
    }
}

pub open spec fn all_hex(s: Seq<char>) -> bool {
    forall|i: int| 0 <= i < s.len() ==> is_hex(#[trigger] s[i])
}

/// The number that a sequence of hexadecimal digits denotes.
pub open spec fn hex_value(s: Seq<char>) -> nat
    decreases s.len(),
{
    if s.len() == 0 {
        0
    } else {
        16 * hex_value(s.drop_last()) + hex_value_of(s.last())
    }
}

/// The unsigned number that `s` denotes in hexadecimal, with an optional plus sign before it;
/// `None` where `s` is no such numeral or the number is above `max`.
pub open spec fn parsed_hex(s: Seq<char>, max: nat) -> Option<nat> {
    let body = if s.len() > 0 && s[0] == '+' {
        s.skip(1)
    } else {
        s
    };
    if body.len() > 0 && all_hex(body) && hex_value(body) <= max {
        Some(hex_value(body))
    } else {
        None
    }
}

proof fn lemma_hex_value_grows(s: Seq<char>, n: int)
    requires
        0 <= n <= s.len(),
        all_hex(s),
    ensures
        hex_value(s.take(n)) <= hex_value(s),
    decreases s.len() - n,
{
    if n < s.len() {
        lemma_hex_value_grows(s, n + 1);
        assert(s.take(n + 1).drop_last() =~= s.take(n));
    } else {
        assert(s.take(n) =~= s);
    }
}

/// Reads an unsigned hexadecimal number of at most `max`.
pub fn parse_hex(s: &str, max: u64) -> (r: Option<u64>)
    ensures
        match r {
            Some(n) => parsed_hex(s@, max as nat) == Some(n as nat),
            None => parsed_hex(s@, max as nat) is None,
        },
{
    let v = chars_of(s);
    let start: usize = if v.len() > 0 && v[0] == '+' {
        1
    } else {
        0
    };
    let ghost body = s@.skip(start as int);
    proof {
        if start == 0 {
            assert(body =~= s@);
        }
    }
    if v.len() == start {
        return None;
    }
    let mut n: u64 = 0;
    let mut i: usize = start;
    while i < v.len()
        invariant
            v@ == s@,
            start <= 1,
            start <= i <= v@.len(),
            body == s@.skip(start as int),
            body.len() > 0,
            start == 1 <==> (s@.len() > 0 && s@[0] == '+'),
            start == 0 ==> body == s@,
            forall|j: int| 0 <= j < i - start ==> is_hex(#[trigger] body[j]),
            n == hex_value(body.take(i - start)),
            n <= max,
        decreases v@.len() - i,
    {
        let c = v[i];
        assert(body[i - start] == c);
        if !hex_digit(c) {
            return None;
        }
        let d: u64 = if digit(c) {
            c as u64 - 48
        } else if 'a' <= c && c <= 'f' {
            c as u64 - 87
        } else {
            c as u64 - 55
        };
        proof {
            assert(body.take(i - start + 1).drop_last() =~= body.take(i - start));
            if all_hex(body) {
                lemma_hex_value_grows(body, i - start + 1);
            }
        }
        if n > max / 16 || d > max - n * 16 {
            return None;
        }
        n = n * 16 + d;
        i = i + 1;
    }
    assert(body.take(i - start) =~= body);
    Some(n)
}

// ---------------------------------------------------------------------------
// Lengths in code units
// ---------------------------------------------------------------------------

/// The number of bytes that a character takes in UTF-8.
pub open spec fn char_width(c: char) -> nat {
    let n = c as u32;
    if n < 0x80 {
        1
    } else if n < 0x800 {
        2
    } else if n < 0x10000 {
        3
    } else {
        4
    }
}

/// The number of bytes that a text takes in UTF-8.
pub open spec fn byte_length(s: Seq<char>) -> nat
    decreases s.len(),
{
    if s.len() == 0 {
        0
    } else {
        char_width(s[0]) + byte_length(s.drop_first())
    }
}

/// `byte_length` is the length of the UTF-8 encoding.
pub proof fn lemma_byte_length(s: Seq<char>)
    ensures
        byte_length(s) == vstd::utf8::encode_utf8(s).len(),
    decreases s.len(),
{
    if s.len() > 0 {
        lemma_byte_length(s.drop_first());
        vstd::utf8::char_is_scalar(s[0]);
    }
}

pub proof fn lemma_byte_length_push(s: Seq<char>, c: char)
    ensures
        byte_length(s.push(c)) == byte_length(s) + char_width(c),
    decreases s.len(),
{
    if s.len() > 0 {
        lemma_byte_length_push(s.drop_first(), c);
        assert(s.push(c).drop_first() =~= s.drop_first().push(c));
    } else {
        assert(s.push(c).drop_first() =~= s);
        assert(s.push(c)[0] == c);
    }
}

pub proof fn lemma_byte_length_at_least(s: Seq<char>)
    ensures
        byte_length(s) >= s.len(),
    decreases s.len(),
{
    if s.len() > 0 {
        lemma_byte_length_at_least(s.drop_first());
    }
}

/// The number of bytes that the UTF-8 form of a string takes.
pub fn byte_len(s: &str) -> (r: usize)
    ensures
        r == byte_length(s@),
{
    proof {
        lemma_byte_length(s@);
    }
    s.as_bytes().len()
}

/// The number of bytes that a character takes in UTF-8.
pub fn width_of(c: char) -> (r: usize)
    ensures
        r == char_width(c),
        1 <= r <= 4,
{
    let n: u32 = c as u32;
    if n < 0x80 {
        1
    } else if n < 0x800 {
        2
    } else if n < 0x10000 {
        3
    } else {
        4
    }
}

/// The longest end of `s` that takes at most `limit` bytes.
pub open spec fn last_bytes(s: Seq<char>, limit: nat) -> Seq<char>
    decreases s.len(),
{
    if s.len() == 0 || byte_length(s) <= limit {
        s
    } else {
        last_bytes(s.drop_first(), limit)
    }
}

/// The longest start of `s` that takes at most `limit` bytes.
pub open spec fn first_bytes(s: Seq<char>, limit: nat) -> Seq<char>
    decreases s.len(),
{
    if s.len() == 0 || byte_length(s) <= limit {
        s
    } else {
        first_bytes(s.drop_last(), limit)
    }
}

proof fn lemma_byte_length_skip(s: Seq<char>, k: int)
    requires
        0 <= k <= s.len(),
    ensures
        byte_length(s.skip(k)) <= byte_length(s),
    decreases k,
{
    if k == 0 {
        assert(s.skip(0) =~= s);
    } else {
        lemma_byte_length_skip(s, k - 1);
        assert(s.skip(k - 1).drop_first() =~= s.skip(k));
    }
}

proof fn lemma_last_bytes_is(s: Seq<char>, limit: nat, k: int)
    requires
        0 <= k <= s.len(),
        byte_length(s.skip(k)) <= limit,
        k > 0 ==> byte_length(s.skip(k - 1)) > limit,
    ensures
        last_bytes(s, limit) == s.skip(k),
    decreases k,
{
    if k == 0 {
        assert(s.skip(0) =~= s);
    } else {
        lemma_byte_length_skip(s, k - 1);
        let t = s.drop_first();
        assert(t.skip(k - 1) =~= s.skip(k));
        if k > 1 {
            assert(t.skip(k - 2) =~= s.skip(k - 1));
        }
        lemma_last_bytes_is(t, limit, k - 1);
    }
}

proof fn lemma_byte_length_take(s: Seq<char>, k: int)
    requires
        0 <= k <= s.len(),
    ensures
        byte_length(s.take(k)) <= byte_length(s),
    decreases s.len() - k,
{
    if k == s.len() {
        assert(s.take(k) =~= s);
    } else {
        lemma_byte_length_take(s, k + 1);
        assert(s.take(k + 1) =~= s.take(k).push(s[k]));
        lemma_byte_length_push(s.take(k), s[k]);
    }
}

proof fn lemma_first_bytes_is(s: Seq<char>, limit: nat, k: int)
    requires
        0 <= k <= s.len(),
        byte_length(s.take(k)) <= limit,
        k < s.len() ==> byte_length(s.take(k + 1)) > limit,
    ensures
        first_bytes(s, limit) == s.take(k),
    decreases s.len() - k,
{
    if k == s.len() {
        assert(s.take(k) =~= s);
    } else {
        lemma_byte_length_take(s, k + 1);
        let t = s.drop_last();
        assert(t.take(k) =~= s.take(k));
        if k < t.len() {
            assert(t.take(k + 1) =~= s.take(k + 1));
        }
        lemma_first_bytes_is(t, limit, k);
    }
}

/// The longest end of a string that takes at most `limit` bytes.
pub fn take_last_bytes(s: &str, limit: usize) -> (r: String)
    ensures
        r@ == last_bytes(s@, limit as nat),
{
    let v = chars_of(s);
    let mut k: usize = v.len();
    let mut used: usize = 0;
    assert(s@.skip(k as int) =~= Seq::<char>::empty());
    while k > 0
        invariant
            v@ == s@,
            k <= v@.len(),
            used == byte_length(s@.skip(k as int)),
            used <= limit,
        decreases k,
    {
        let w = width_of(v[k - 1]);
        assert(s@.skip(k - 1).drop_first() =~= s@.skip(k as int));
        if w > limit - used {
            proof {
                lemma_last_bytes_is(s@, limit as nat, k as int);
            }
            let r = text_of(slice_subrange(&v, k, v.len()));
            assert(r@ =~= s@.skip(k as int));
            return r;
        }
        used = used + w;
        k = k - 1;
    }
    proof {
        lemma_last_bytes_is(s@, limit as nat, 0);
        assert(s@.skip(0) =~= s@);
    }
    own(s)
}

/// The longest start of a string that takes at most `limit` bytes.
pub fn take_first_bytes(s: &str, limit: usize) -> (r: String)
    ensures
        r@ == first_bytes(s@, limit as nat),
{
    let v = chars_of(s);
    let mut k: usize = 0;
    let mut used: usize = 0;
    while k < v.len()
        invariant
            v@ == s@,
            k <= v@.len(),
            used == byte_length(s@.take(k as int)),
            used <= limit,
        decreases v@.len() - k,
    {
        let w = width_of(v[k]);
        proof {
            assert(s@.take(k + 1) =~= s@.take(k as int).push(s@[k as int]));
            lemma_byte_length_push(s@.take(k as int), s@[k as int]);
        }
        if w > limit - used {
            proof {
                lemma_first_bytes_is(s@, limit as nat, k as int);
            }
            let r = text_of(slice_subrange(&v, 0, k));
            assert(r@ =~= s@.take(k as int));
            return r;
        }
        used = used + w;
        k = k + 1;
    }
    proof {
        assert(s@.take(k as int) =~= s@);
        lemma_first_bytes_is(s@, limit as nat, k as int);
    }
    own(s)
}

/// Both cuts respect their limit.
pub proof fn lemma_cuts_within(s: Seq<char>, limit: nat)
    ensures
        byte_length(last_bytes(s, limit)) <= limit,
        byte_length(first_bytes(s, limit)) <= limit,
        exists|k: int| 0 <= k <= s.len() && last_bytes(s, limit) == #[trigger] s.skip(k),
        exists|k: int| 0 <= k <= s.len() && first_bytes(s, limit) == #[trigger] s.take(k),
    decreases s.len(),
{
    if s.len() == 0 || byte_length(s) <= limit {
        assert(s.skip(0) =~= s);
        assert(s.take(s.len() as int) =~= s);
    } else {
        lemma_cuts_within(s.drop_first(), limit);
        lemma_cuts_within(s.drop_last(), limit);
        let k = choose|k: int|
            0 <= k <= s.drop_first().len() && last_bytes(s.drop_first(), limit)
                == #[trigger] s.drop_first().skip(k);
        assert(s.drop_first().skip(k) =~= s.skip(k + 1));
        let m = choose|k: int|
            0 <= k <= s.drop_last().len() && first_bytes(s.drop_last(), limit)
                == #[trigger] s.drop_last().take(k);
        assert(s.drop_last().take(m) =~= s.take(m));
    }
}

// ---------------------------------------------------------------------------
// Bytes
// ---------------------------------------------------------------------------

/// What `String::from_utf8_lossy` makes of bytes.
pub uninterp spec fn lossy_text(b: Seq<u8>) -> Seq<char>;

/// `String::from_utf8_lossy`: the text that bytes encode; where they are no UTF-8 the faulty
/// parts are replaced.
#[verifier::external_body]
pub(crate) fn from_utf8_lossy(b: &[u8]) -> (r: String)
    ensures
        r@ == lossy_text(b@),
        vstd::utf8::valid_utf8(b@) ==> r@ == vstd::utf8::decode_utf8(b@),
{
    String::from_utf8_lossy(b).into_owned()
}

/// `String::from_utf8`: the text that bytes encode, if they are UTF-8.
#[verifier::external_body]
pub(crate) fn from_utf8(b: Vec<u8>) -> (r: Option<String>)
    ensures
        r is Some <==> vstd::utf8::valid_utf8(b@),
        r matches Some(s) ==> s@ == vstd::utf8::decode_utf8(b@),
{
    String::from_utf8(b).ok()
}

/// The first position at or after `from` at which `p` stands in `s`; the length of `s` if
/// there is none.
pub open spec fn stands_from(s: Seq<char>, p: Seq<char>, from: int) -> int
    decreases s.len() - from,
{
    if from >= s.len() {
        s.len() as int
    } else if stands_at(s, p, from) {
        from
    } else {
        stands_from(s, p, from + 1)
    }
}

pub proof fn lemma_stands_from(s: Seq<char>, p: Seq<char>, from: int)
    requires
        0 <= from <= s.len(),
        p.len() > 0,
    ensures
        from <= stands_from(s, p, from) <= s.len(),
        stands_from(s, p, from) < s.len() ==> stands_from(s, p, from) + p.len() <= s.len(),
    decreases s.len() - from,
{
    if from < s.len() && !stands_at(s, p, from) {
        lemma_stands_from(s, p, from + 1);
    }
}

/// The pieces of `s[start..]` between the occurrences of a separator.
pub open spec fn pieces_from(s: Seq<char>, sep: Seq<char>, start: int) -> Seq<Seq<char>>
    decreases s.len() - start,
{
    if 0 <= start <= s.len() && sep.len() > 0 {
        let i = stands_from(s, sep, start);
        proof {
            lemma_stands_from(s, sep, start);
        }
        if i >= s.len() {
            seq![s.subrange(start, s.len() as int)]
        } else {
            seq![s.subrange(start, i)] + pieces_from(s, sep, i + sep.len())
        }
    } else {
        Seq::empty()
    }
}

/// The pieces between the occurrences of a separator that is not empty.
pub fn split_text(s: &str, sep: &str) -> (r: Vec<String>)
    requires
        sep@.len() > 0,
    ensures
        texts(r@) == pieces_from(s@, sep@, 0),
        r@.len() > 0,
{
    let v = chars_of(s);
    let p = chars_of(sep);
    let n: usize = v.len();
    let mut out: Vec<String> = Vec::new();
    let mut start: usize = 0;
    let mut i: usize = 0;
    assert(texts(out@) + pieces_from(v@, p@, 0) =~= pieces_from(v@, p@, 0));
    while i < n
        invariant
            n == v@.len(),
            v@ == s@,
            p@ == sep@,
            p@.len() > 0,
            start <= i <= n,
            stands_from(v@, p@, start as int) == stands_from(v@, p@, i as int),
            texts(out@) + pieces_from(v@, p@, start as int) =~= pieces_from(s@, sep@, 0),
        decreases n - i,
    {
        if found_at(&v, &p, i) {
            let piece = text_of(slice_subrange(&v, start, i));
            let ghost before = out@;
            out.push(piece);
            assert(texts(out@) =~= texts(before).push(piece@));
            assert(pieces_from(v@, p@, start as int) =~= seq![piece@] + pieces_from(
                v@,
                p@,
                i + p@.len(),
            ));
            i = i + p.len();
            start = i;
        } else {
            i = i + 1;
        }
    }
    let piece = text_of(slice_subrange(&v, start, n));
    let ghost before = out@;
    out.push(piece);
    assert(texts(out@) =~= texts(before).push(piece@));
    assert(pieces_from(v@, p@, start as int) =~= seq![piece@]);
    out
}

/// Being one character.
pub open spec fn is_char(c: char) -> spec_fn(char) -> bool {
    |x: char| x == c
}

/// What stands before and behind the first `c`.
pub open spec fn parted(s: Seq<char>, c: char) -> Option<(Seq<char>, Seq<char>)> {
    let i = find_from(s, is_char(c), 0);
    if 0 <= i < s.len() {
        Some((s.take(i), s.skip(i + 1)))
    } else {
        None
    }
}

/// What stands before and behind the first `c`; `None` where there is none.
pub fn split_once(s: &str, c: char) -> (r: Option<(String, String)>)
    ensures
        match r {
            Some((a, b)) => parted(s@, c) == Some((a@, b@)),
            None => parted(s@, c) is None,
        },
{
    let v = chars_of(s);
    let ghost f = is_char(c);
    let n: usize = v.len();
    let mut i: usize = 0;
    while i < n && v[i] != c
        invariant
            n == v@.len(),
            i <= n,
            f == is_char(c),
            forall|j: int| 0 <= j < i ==> !f(#[trigger] v@[j]),
        decreases n - i,
    {
        i = i + 1;
    }
    proof {
        lemma_find_from_is(v@, f, 0, i as int);
    }
    if i < n {
        let a = text_of(slice_subrange(&v, 0, i));
        let b = text_of(slice_subrange(&v, i + 1, n));
        assert(a@ =~= s@.take(i as int));
        assert(b@ =~= s@.skip(i + 1));
        Some((a, b))
    } else {
        None
    }
}

/// Whether two texts are equal but for the case of ASCII letters.
pub fn same_ignoring_case(a: &str, b: &str) -> (r: bool)
    ensures
        r == (lowered(a@) == lowered(b@)),
{
    same(ascii_lower(a).as_str(), ascii_lower(b).as_str())
}

/// Whether one text is before another, character by character.
pub fn comes_before(a: &str, b: &str) -> (r: bool)
    ensures
        r == crate::json::text_before(a@, b@),
{
    let x = chars_of(a);
    let y = chars_of(b);
    let mut i: usize = 0;
    assert(x@.skip(0) =~= x@ && y@.skip(0) =~= y@);
    while i < x.len() && i < y.len() && x[i] == y[i]
        invariant
            i <= x@.len(),
            i <= y@.len(),
            x@ == a@,
            y@ == b@,
            crate::json::text_before(a@, b@) == crate::json::text_before(
                x@.skip(i as int),
                y@.skip(i as int),
            ),
        decreases x@.len() - i,
    {
        proof {
            assert(x@.skip(i as int).drop_first() =~= x@.skip(i + 1));
            assert(y@.skip(i as int).drop_first() =~= y@.skip(i + 1));
        }
        i = i + 1;
    }
    if i >= y.len() {
        false
    } else if i >= x.len() {
        true
    } else {
        x[i] < y[i]
    }
}

// ---------------------------------------------------------------------------
// Laws
// ---------------------------------------------------------------------------

/// A number in decimal reads back as the number, and has no zero before it.
pub proof fn decimal_numbers_read_back(n: nat, max: nat)
    ensures
        dec(n).len() > 0,
        all_digits(dec(n)),
        digits_value(dec(n)) == n,
        n > 0 ==> dec(n)[0] != '0',
        parsed(dec(n), max) == (if n <= max {
            Some(n)
        } else {
            None
        }),
    decreases n,
{
    reveal_with_fuel(digits_value, 2);
    if n < 10 {
        assert(dec(n).drop_last() =~= Seq::<char>::empty());
    } else {
        decimal_numbers_read_back(n / 10, max);
        assert(dec(n).drop_last() =~= dec(n / 10));
        assert forall|i: int| 0 <= i < dec(n).len() implies is_digit(#[trigger] dec(n)[i]) by {
            if i < dec(n / 10).len() {
                assert(dec(n)[i] == dec(n / 10)[i]);
            }
        }
        assert(dec(n)[0] == dec(n / 10)[0]);
    }
    assert(is_digit(dec(n)[0]));
}

/// Characters that part pieces leave nothing to collect between them.
pub proof fn lemma_split_skips<B>(
    s: Seq<char>,
    f: spec_fn(char) -> bool,
    g: spec_fn(Seq<char>) -> Option<B>,
    a: int,
    b: int,
)
    requires
        0 <= a <= b <= s.len(),
        forall|j: int| a <= j < b ==> f(#[trigger] s[j]),
        g(Seq::empty()) is None,
    ensures
        crate::seqs::collect(split_from(s, f, a), g) == crate::seqs::collect(
            split_from(s, f, b),
            g,
        ),
    decreases b - a,
{
    if a < b {
        lemma_split_skips(s, f, g, a + 1, b);
        lemma_find_from_is(s, f, a, a);
        assert(s.subrange(a, a) =~= Seq::<char>::empty());
        let rest = split_from(s, f, a + 1);
        let first = seq![s.subrange(a, a)];
        crate::seqs::lemma_collect_add(first, rest, g);
        reveal_with_fuel(crate::seqs::collect, 2);
        assert(first.drop_last() =~= Seq::<Seq<char>>::empty());
        assert(crate::seqs::collect(first, g) =~= Seq::<B>::empty());
        assert(crate::seqs::collect(first, g) + crate::seqs::collect(rest, g)
            =~= crate::seqs::collect(rest, g));
    }
}

/// A piece up to the next character that parts pieces is collected before the rest.
pub proof fn lemma_split_takes<B>(
    s: Seq<char>,
    f: spec_fn(char) -> bool,
    g: spec_fn(Seq<char>) -> Option<B>,
    a: int,
    c: int,
)
    requires
        0 <= a <= c <= s.len(),
        forall|j: int| a <= j < c ==> !f(#[trigger] s[j]),
        c < s.len() ==> f(s[c]),
        g(s.subrange(a, c)) is Some,
    ensures
        c < s.len() ==> crate::seqs::collect(split_from(s, f, a), g) == seq![
            g(s.subrange(a, c))->Some_0,
        ] + crate::seqs::collect(split_from(s, f, c + 1), g),
        c == s.len() ==> crate::seqs::collect(split_from(s, f, a), g) == seq![
            g(s.subrange(a, c))->Some_0,
        ],
{
    lemma_find_from_is(s, f, a, c);
    let first = seq![s.subrange(a, c)];
    reveal_with_fuel(crate::seqs::collect, 2);
    assert(first.drop_last() =~= Seq::<Seq<char>>::empty());
    assert(crate::seqs::collect(first, g) =~= seq![g(s.subrange(a, c))->Some_0]);
    if c < s.len() {
        crate::seqs::lemma_collect_add(first, split_from(s, f, c + 1), g);
    }
}

/// Two numbers with words before and between them are the first two that are collected of a
/// text.
pub proof fn lemma_two_numbers<B>(
    before: Seq<char>,
    w: nat,
    between: Seq<char>,
    h: nat,
    behind: Seq<char>,
    g: spec_fn(Seq<char>) -> Option<B>,
)
    requires
        forall|i: int| 0 <= i < before.len() ==> !is_digit(#[trigger] before[i]),
        forall|i: int| 0 <= i < between.len() ==> !is_digit(#[trigger] between[i]),
        between.len() > 0,
        behind.len() > 0 ==> !is_digit(behind[0]),
        g(Seq::empty()) is None,
        g(dec(w)) is Some,
        g(dec(h)) is Some,
    ensures
        ({
            let s = before + dec(w) + between + dec(h) + behind;
            seq![g(dec(w))->Some_0, g(dec(h))->Some_0].is_prefix_of(
                crate::seqs::collect(split_by(s, |c: char| !is_digit(c)), g),
            )
        }),
{
    let s = before + dec(w) + between + dec(h) + behind;
    let f = |c: char| !is_digit(c);
    decimal_numbers_read_back(w, 0);
    decimal_numbers_read_back(h, 0);
    let a = before.len() as int;
    let b = a + dec(w).len();
    let c = b + between.len();
    let d = c + dec(h).len();
    assert forall|j: int| 0 <= j < a implies f(#[trigger] s[j]) by {
        assert(s[j] == before[j]);
    }
    assert forall|j: int| a <= j < b implies !f(#[trigger] s[j]) by {
        assert(s[j] == dec(w)[j - a]);
    }
    assert forall|j: int| b <= j < c implies f(#[trigger] s[j]) by {
        assert(s[j] == between[j - b]);
    }
    assert forall|j: int| c <= j < d implies !f(#[trigger] s[j]) by {
        assert(s[j] == dec(h)[j - c]);
    }
    if d < s.len() {
        assert(s[d] == behind[0]);
    }
    assert(s.subrange(a, b) =~= dec(w));
    assert(s.subrange(c, d) =~= dec(h));
    lemma_split_skips(s, f, g, 0, a);
    assert(f(s[b]));
    lemma_split_takes(s, f, g, a, b);
    lemma_split_skips(s, f, g, b + 1, c);
    lemma_split_takes(s, f, g, c, d);
    let all = crate::seqs::collect(split_by(s, f), g);
    assert(all.subrange(0, 2) =~= seq![g(dec(w))->Some_0, g(dec(h))->Some_0]);
}

/// A number in hexadecimal takes as many digits as it is given and reads back as the number,
/// where they suffice.
pub proof fn hexadecimal_numbers_read_back(n: nat, width: nat, capital: bool)
    ensures
        hex(n, width, capital).len() == width,
        all_hex(hex(n, width, capital)),
        n < vstd::arithmetic::power::pow(16, width) ==> hex_value(hex(n, width, capital)) == n,
    decreases width,
{
    reveal(vstd::arithmetic::power::pow);
    if width > 0 {
        let front = hex(n / 16, (width - 1) as nat, capital);
        hexadecimal_numbers_read_back(n / 16, (width - 1) as nat, capital);
        let all = hex(n, width, capital);
        assert(all.drop_last() =~= front);
        assert forall|i: int| 0 <= i < all.len() implies is_hex(#[trigger] all[i]) by {
            if i < front.len() {
                assert(all[i] == front[i]);
            }
        }
    }
}

/// Texts of ASCII characters are cut by character: each takes one byte.
pub proof fn ascii_texts_are_cut_by_character(s: Seq<char>, limit: nat)
    requires
        all_ascii(s),
    ensures
        byte_length(s) == s.len(),
        limit <= s.len() ==> first_bytes(s, limit) == s.take(limit as int) && last_bytes(s, limit)
            == s.skip(s.len() - limit),
    decreases s.len(),
{
    if s.len() > 0 {
        assert(all_ascii(s.drop_first())) by {
            assert forall|i: int| 0 <= i < s.drop_first().len() implies (
            #[trigger] s.drop_first()[i] as u32) < 0x80 by {
                assert(s.drop_first()[i] == s[i + 1]);
            }
        }
        assert(all_ascii(s.drop_last())) by {
            assert forall|i: int| 0 <= i < s.drop_last().len() implies (
            #[trigger] s.drop_last()[i] as u32) < 0x80 by {
                assert(s.drop_last()[i] == s[i]);
            }
        }
        ascii_texts_are_cut_by_character(s.drop_first(), limit);
        ascii_texts_are_cut_by_character(s.drop_last(), limit);
        assert((s[0] as u32) < 0x80);
        if limit < s.len() {
            assert(s.drop_last().take(limit as int) =~= s.take(limit as int));
            assert(s.drop_first().skip(s.len() - 1 - limit) =~= s.skip(s.len() - limit));
        }
    }
    if limit == s.len() {
        assert(s.take(limit as int) =~= s);
        assert(s.skip(0) =~= s);
    }
}

/// A trimmed text begins and ends with no white space, and only white space was taken from its
/// two ends.
pub proof fn trimming_takes_white_space_only(s: Seq<char>)
    ensures
        trimmed(s).len() > 0 ==> !is_space(trimmed(s)[0]) && !is_space(trimmed(s).last()),
        exists|a: int, b: int|
            0 <= a <= b <= s.len() && trimmed(s) == #[trigger] s.subrange(a, b) && (forall|i: int|
                0 <= i < a ==> is_space(#[trigger] s[i])) && (forall|i: int|
                b <= i < s.len() ==> is_space(#[trigger] s[i])),
{
    let f = |c: char| !is_space(c);
    let a = find_from(s, f, 0);
    lemma_find_from(s, f, 0);
    assert forall|i: int| 0 <= i < a implies is_space(#[trigger] s[i]) by {
        assert(!f(s[i]));
    }
    if a >= s.len() {
        assert(s.subrange(s.len() as int, s.len() as int) =~= Seq::<char>::empty());
    } else {
        assert(f(s[a]));
        lemma_trim_end(s, a, s.len() as int);
        lemma_trim_end_spaces(s, s.len() as int);
        let b = trim_end_at(s, s.len() as int);
        assert(trimmed(s) == s.subrange(a, b));
    }
}

/// A text without white space stays as it is when it is trimmed.
pub proof fn words_are_not_trimmed(s: Seq<char>)
    requires
        forall|i: int| 0 <= i < s.len() ==> !is_space(#[trigger] s[i]),
    ensures
        trimmed(s) == s,
{
    let f = |c: char| !is_space(c);
    if s.len() > 0 {
        assert(f(s[0]));
        lemma_find_from_is(s, f, 0, 0);
        assert(trim_end_at(s, s.len() as int) == s.len());
        assert(s.subrange(0, s.len() as int) =~= s);
    } else {
        assert(trimmed(s) =~= s);
    }
}

/// The first two words of a text are read apart, whatever white space stands between them.
pub proof fn two_words_are_read_apart(
    a: Seq<char>,
    gap: Seq<char>,
    b: Seq<char>,
    rest: Seq<char>,
)
    requires
        a.len() > 0,
        b.len() > 0,
        gap.len() > 0,
        forall|i: int| 0 <= i < a.len() ==> !is_space(#[trigger] a[i]),
        forall|i: int| 0 <= i < b.len() ==> !is_space(#[trigger] b[i]),
        forall|i: int| 0 <= i < gap.len() ==> is_space(#[trigger] gap[i]),
        rest.len() > 0 ==> is_space(rest[0]),
    ensures
        ({
            let w = words_of(a + gap + b + rest);
            &&& w.len() >= 2 && w[0] == a && w[1] == b
            &&& rest.len() == 0 ==> w.len() == 2
        }),
{
    let s = a + gap + b + rest;
    let fo = |c: char| !is_space(c);
    let fs = |c: char| is_space(c);
    let n = a.len() as int;
    let m = n + gap.len();
    let k = m + b.len();
    assert forall|j: int| 0 <= j < n implies !fs(#[trigger] s[j]) by {
        assert(s[j] == a[j]);
    }
    assert forall|j: int| n <= j < m implies !fo(#[trigger] s[j]) by {
        assert(s[j] == gap[j - n]);
    }
    assert forall|j: int| m <= j < k implies !fs(#[trigger] s[j]) by {
        assert(s[j] == b[j - m]);
    }
    assert(s[0] == a[0] && s[n] == gap[0] && s[m] == b[0]);
    if k < s.len() {
        assert(s[k] == rest[0]);
    }
    lemma_find_from_is(s, fo, 0, 0);
    lemma_find_from_is(s, fs, 0, n);
    lemma_find_from_is(s, fo, n, m);
    lemma_find_from_is(s, fs, m, k);
    assert(s.subrange(0, n) =~= a);
    assert(s.subrange(m, k) =~= b);
    assert(words_from(s, 0) == seq![a] + words_from(s, n));
    assert(words_from(s, n) == seq![b] + words_from(s, k));
}

/// A text that begins and ends with no white space stays as it is when it is trimmed.
pub proof fn inked_texts_are_not_trimmed(s: Seq<char>)
    requires
        s.len() > 0,
        !is_space(s[0]),
        !is_space(s.last()),
    ensures
        trimmed(s) == s,
{
    let f = |c: char| !is_space(c);
    assert(f(s[0]));
    lemma_find_from_is(s, f, 0, 0);
    assert(trim_end_at(s, s.len() as int) == s.len());
    assert(s.subrange(0, s.len() as int) =~= s);
}

/// Where something is replaced by what shares no character with it, it no longer occurs.
pub proof fn replaced_texts_are_gone(s: Seq<char>, from: Seq<char>, to: Seq<char>)
    requires
        from.len() > 0,
        to.len() > 0,
        forall|i: int, j: int|
            0 <= i < from.len() && 0 <= j < to.len() ==> #[trigger] from[i] != #[trigger] to[j],
    ensures
        !occurs(replaced(s, from, to), from),
{
    lemma_replaced_gone(s, from, to, 0);
}

proof fn lemma_replaced_prefix(
    s: Seq<char>,
    from: Seq<char>,
    to: Seq<char>,
    i: int,
    p: Seq<char>,
)
    requires
        0 <= i,
        from.len() > 0,
        to.len() > 0,
        forall|a: int, b: int|
            0 <= a < p.len() && 0 <= b < to.len() ==> #[trigger] p[a] != #[trigger] to[b],
        stands_at(replaced_from(s, from, to, i), p, 0),
    ensures
        p.len() > 0 ==> stands_at(s, p, i),
    decreases p.len(),
{
    if p.len() > 0 {
        let r = replaced_from(s, from, to, i);
        assert(r.subrange(0, p.len() as int)[0] == p[0]);
        assert(r[0] == p[0]);
        if i < s.len() {
            if stands_at(s, from, i) {
                assert(r[0] == to[0]);
                assert(p[0] != to[0]);
            } else {
                let rest = replaced_from(s, from, to, i + 1);
                let q = p.skip(1);
                assert forall|a: int, b: int|
                    0 <= a < q.len() && 0 <= b < to.len() implies #[trigger] q[a]
                    != #[trigger] to[b] by {
                    assert(q[a] == p[a + 1]);
                }
                assert(rest.subrange(0, q.len() as int) =~= q) by {
                    assert forall|a: int| 0 <= a < q.len() implies rest[a] == q[a] by {
                        assert(r.subrange(0, p.len() as int)[a + 1] == p[a + 1]);
                        assert(r[a + 1] == rest[a]);
                    }
                }
                lemma_replaced_prefix(s, from, to, i + 1, q);
                if q.len() > 0 {
                    assert(s.subrange(i, i + p.len()) =~= p) by {
                        assert forall|a: int| 0 <= a < p.len() implies s[i + a] == p[a] by {
                            if a > 0 {
                                assert(s.subrange(i + 1, i + 1 + q.len())[a - 1] == q[a - 1]);
                            }
                        }
                    }
                } else {
                    assert(s.subrange(i, i + 1) =~= p);
                }
            }
        }
    }
}

proof fn lemma_replaced_gone(s: Seq<char>, from: Seq<char>, to: Seq<char>, i: int)
    requires
        0 <= i,
        from.len() > 0,
        to.len() > 0,
        forall|a: int, b: int|
            0 <= a < from.len() && 0 <= b < to.len() ==> #[trigger] from[a] != #[trigger] to[b],
    ensures
        !occurs(replaced_from(s, from, to, i), from),
    decreases s.len() - i,
{
    let r = replaced_from(s, from, to, i);
    if occurs(r, from) {
        let q = choose|q: int| #[trigger] stands_at(r, from, q);
        assert(r.subrange(q, q + from.len())[0] == from[0]);
        if i < s.len() {
            if stands_at(s, from, i) {
                let rest = replaced_from(s, from, to, i + from.len());
                lemma_replaced_gone(s, from, to, i + from.len());
                if q < to.len() {
                    assert(r[q] == to[q]);
                    assert(from[0] != to[q]);
                } else {
                    let k = q - to.len();
                    assert(rest.subrange(k, k + from.len()) =~= r.subrange(q, q + from.len()));
                    assert(stands_at(rest, from, k));
                }
            } else if q == 0 {
                lemma_replaced_prefix(s, from, to, i, from);
            } else {
                let rest = replaced_from(s, from, to, i + 1);
                lemma_replaced_gone(s, from, to, i + 1);
                assert(rest.subrange(q - 1, q - 1 + from.len()) =~= r.subrange(q, q + from.len()));
                assert(stands_at(rest, from, q - 1));
            }
        }
    }
}

proof fn lemma_trim_end_spaces(s: Seq<char>, n: int)
    requires
        0 <= n <= s.len(),
    ensures
        0 <= trim_end_at(s, n) <= n,
        forall|i: int| trim_end_at(s, n) <= i < n ==> is_space(#[trigger] s[i]),
        trim_end_at(s, n) > 0 ==> !is_space(s[trim_end_at(s, n) - 1]),
    decreases n,
{
    if n > 0 && is_space(s[n - 1]) {
        lemma_trim_end_spaces(s, n - 1);
    }
}

/// The case of a letter is the only thing that changes with its case.
pub proof fn letters_change_their_case_only(c: char)
    ensures
        is_upper(c) ==> lower(c) as u32 == c as u32 + 32 && is_lower(lower(c)) && upper(lower(c))
            == c,
        !is_upper(c) ==> lower(c) == c,
        is_lower(c) ==> upper(c) as u32 == c as u32 - 32 && is_upper(upper(c)) && lower(upper(c))
            == c,
        !is_lower(c) ==> upper(c) == c,
{
}

proof fn lemma_find_shifts(p: Seq<char>, s: Seq<char>, f: spec_fn(char) -> bool, k: int)
    requires
        0 <= k <= s.len(),
    ensures
        find_from(p + s, f, p.len() + k) == p.len() + find_from(s, f, k),
{
    let at = find_from(s, f, k);
    lemma_find_from(s, f, k);
    let t = p + s;
    assert forall|j: int| p.len() + k <= j < p.len() + at implies !f(#[trigger] t[j]) by {
        assert(t[j] == s[j - p.len()]);
    }
    lemma_find_from_is(t, f, p.len() + k, p.len() + at);
}

proof fn lemma_split_shifts(p: Seq<char>, s: Seq<char>, f: spec_fn(char) -> bool, k: int)
    requires
        0 <= k <= s.len(),
    ensures
        split_from(p + s, f, p.len() + k) == split_from(s, f, k),
    decreases s.len() - k,
{
    let t = p + s;
    let i = find_from(s, f, k);
    lemma_find_from(s, f, k);
    lemma_find_shifts(p, s, f, k);
    if i < s.len() {
        lemma_split_shifts(p, s, f, i + 1);
        assert(t.subrange(p.len() + k, p.len() + i) =~= s.subrange(k, i));
    } else {
        assert(t.subrange(p.len() + k, t.len() as int) =~= s.subrange(k, s.len() as int));
    }
}

/// A text without the character that parts pieces is one piece; what stands before the first
/// such character is the first piece, and the pieces of what stands behind it are the others.
pub proof fn pieces_are_split_off(
    a: Seq<char>,
    c: char,
    rest: Seq<char>,
    f: spec_fn(char) -> bool,
)
    requires
        forall|i: int| 0 <= i < a.len() ==> !f(#[trigger] a[i]),
        f(c),
    ensures
        split_by(a, f) == seq![a],
        split_by(a + seq![c] + rest, f) == seq![a] + split_by(rest, f),
{
    lemma_find_from_is(a, f, 0, a.len() as int);
    assert(a.subrange(0, a.len() as int) =~= a);
    let p = a + seq![c];
    let t = p + rest;
    assert forall|j: int| 0 <= j < a.len() implies !f(#[trigger] t[j]) by {
        assert(t[j] == a[j]);
    }
    lemma_find_from_is(t, f, 0, a.len() as int);
    lemma_split_shifts(p, rest, f, 0);
    assert(t.subrange(0, a.len() as int) =~= a);
}

/// A line is what stands before its line feed, whether or not a carriage return stands between
/// them; what follows the last line feed is a line too, where there is anything.
pub proof fn lines_are_read_one_by_one(a: Seq<char>, rest: Seq<char>)
    requires
        forall|i: int| 0 <= i < a.len() ==> #[trigger] a[i] != '\n',
    ensures
        lines_of(Seq::empty()) == Seq::<Seq<char>>::empty(),
        a.len() > 0 ==> lines_of(a) == seq![a],
        a.len() == 0 || a.last() != '\r' ==> lines_of(a + seq!['\n'] + rest) == seq![a] + lines_of(
            rest,
        ),
        lines_of(a + seq!['\r', '\n'] + rest) == seq![a] + lines_of(rest),
{
    let f = |c: char| c == '\n';
    lemma_find_from_is(a, f, 0, a.len() as int);
    assert(a.subrange(0, a.len() as int) =~= a);
    lemma_line_first(a, rest);
    let b = a.push('\r');
    lemma_line_first(b, rest);
    assert(b + seq!['\n'] + rest =~= a + seq!['\r', '\n'] + rest);
    assert(b.drop_last() =~= a);
}

proof fn lemma_line_first(a: Seq<char>, rest: Seq<char>)
    requires
        forall|i: int| 0 <= i < a.len() ==> #[trigger] a[i] != '\n',
    ensures
        lines_of(a + seq!['\n'] + rest) == seq![without_cr(a)] + lines_of(rest),
{
    let f = |c: char| c == '\n';
    let p = a + seq!['\n'];
    let t = p + rest;
    assert forall|j: int| 0 <= j < a.len() implies !f(#[trigger] t[j]) by {
        assert(t[j] == a[j]);
    }
    assert(t[a.len() as int] == '\n');
    lemma_find_from_is(t, f, 0, a.len() as int);
    lemma_lines_shift(p, rest, 0);
    assert(t.subrange(0, a.len() as int) =~= a);
}

proof fn lemma_lines_shift(p: Seq<char>, s: Seq<char>, k: int)
    requires
        0 <= k <= s.len(),
    ensures
        lines_from(p + s, p.len() + k) == lines_from(s, k),
    decreases s.len() - k,
{
    let f = |c: char| c == '\n';
    let t = p + s;
    if k < s.len() {
        let i = find_from(s, f, k);
        lemma_find_from(s, f, k);
        lemma_find_shifts(p, s, f, k);
        if i < s.len() {
            lemma_lines_shift(p, s, i + 1);
            assert(t.subrange(p.len() + k, p.len() + i) =~= s.subrange(k, i));
        } else {
            assert(t.subrange(p.len() + k, t.len() as int) =~= s.subrange(k, s.len() as int));
        }
    }
}

/// A text is parted at the first of the characters that part it, and at no other.
pub proof fn texts_are_parted_at_the_first(a: Seq<char>, c: char, b: Seq<char>)
    requires
        !a.contains(c),
    ensures
        parted(a, c) is None,
        parted(a + seq![c] + b, c) == Some((a, b)),
{
    let f = is_char(c);
    let t = a + seq![c] + b;
    assert forall|j: int| 0 <= j < a.len() implies !f(#[trigger] a[j]) by {
        assert(a.contains(a[j]));
    }
    lemma_find_from_is(a, f, 0, a.len() as int);
    assert forall|j: int| 0 <= j < a.len() implies !f(#[trigger] t[j]) by {
        assert(t[j] == a[j]);
    }
    lemma_find_from_is(t, f, 0, a.len() as int);
    assert(t.take(a.len() as int) =~= a);
    assert(t.skip(a.len() as int + 1) =~= b);
}

/// What stands behind the last of a character holds none of it.
pub proof fn the_last_piece_is_found(a: Seq<char>, c: char, b: Seq<char>)
    requires
        !b.contains(c),
    ensures
        behind_last(b, c) == b,
        behind_last(a + seq![c] + b, c) == b,
{
    lemma_last_at(b, c, 0, b.len() as int);
    assert(last_at(b, c, 0) == -1);
    assert(b.skip(0) =~= b);
    let t = a + seq![c] + b;
    assert forall|j: int| a.len() + 1 <= j < t.len() implies #[trigger] t[j] != c by {
        assert(t[j] == b[j - a.len() - 1]);
    }
    lemma_last_at(t, c, a.len() as int + 1, t.len() as int);
    assert(t[a.len() as int] == c);
    assert(last_at(t, c, a.len() as int + 1) == a.len());
    assert(t.skip(a.len() as int + 1) =~= b);
}

proof fn lemma_last_at(s: Seq<char>, c: char, m: int, n: int)
    requires
        0 <= m <= n <= s.len(),
        forall|j: int| m <= j < n ==> #[trigger] s[j] != c,
    ensures
        last_at(s, c, n) == last_at(s, c, m),
    decreases n - m,
{
    if m < n {
        lemma_last_at(s, c, m, n - 1);
    }
}

/// A text is cut behind its first characters; one that is short enough stays.
pub proof fn texts_are_cut_at_their_end(s: Seq<char>, n: int)
    requires
        0 <= n,
    ensures
        first_chars(s, n).is_prefix_of(s),
        first_chars(s, n).len() <= n,
        first_chars(s, n).len() == n || first_chars(s, n) == s,
{
}

/// A number and its opposite differ in the sign before them alone.
pub proof fn opposite_numbers_differ_in_their_sign(n: nat)
    ensures
        n > 0 ==> dec_int(-(n as int)) == seq!['-'] + dec_int(n as int),
        parsed(dec_int(n as int), n) == Some(n),
{
    decimal_numbers_read_back(n, n);
}

/// Texts that are joined stand in a row with what joins them between them.
pub proof fn joined_texts_stand_in_a_row(s: Seq<Seq<char>>, t: Seq<Seq<char>>, sep: Seq<char>)
    requires
        s.len() > 0,
        t.len() > 0,
    ensures
        s.len() == 1 ==> joined(s, sep) == s[0],
        joined(s + t, sep) == joined(s, sep) + sep + joined(t, sep),
    decreases t.len(),
{
    let all = s + t;
    assert(all.drop_last() =~= s + t.drop_last());
    assert(all.last() == t.last());
    if t.len() == 1 {
        assert(s + t.drop_last() =~= s);
    } else {
        joined_texts_stand_in_a_row(s, t.drop_last(), sep);
        assert(joined(all, sep) =~= joined(s, sep) + sep + joined(t, sep));
    }
}

/// The pieces of a text, joined by what parted them, are the text.
pub proof fn pieces_make_up_the_text(s: Seq<char>, sep: Seq<char>)
    requires
        sep.len() > 0,
    ensures
        joined(pieces_from(s, sep, 0), sep) == s,
{
    lemma_pieces_join(s, sep, 0);
    assert(s.skip(0) =~= s);
}

proof fn lemma_pieces_join(s: Seq<char>, sep: Seq<char>, start: int)
    requires
        sep.len() > 0,
        0 <= start <= s.len(),
    ensures
        pieces_from(s, sep, start).len() > 0,
        joined(pieces_from(s, sep, start), sep) == s.skip(start),
    decreases s.len() - start,
{
    let i = stands_from(s, sep, start);
    lemma_stands_from(s, sep, start);
    if i >= s.len() {
        assert(s.subrange(start, s.len() as int) =~= s.skip(start));
    } else {
        lemma_pieces_join(s, sep, i + sep.len());
        lemma_stands_there(s, sep, start);
        let first = seq![s.subrange(start, i)];
        let rest = pieces_from(s, sep, i + sep.len());
        joined_texts_stand_in_a_row(first, rest, sep);
        assert(s.skip(start) =~= s.subrange(start, i) + sep + s.skip(i + sep.len()));
    }
}

proof fn lemma_stands_there(s: Seq<char>, p: Seq<char>, from: int)
    requires
        0 <= from <= s.len(),
    ensures
        stands_from(s, p, from) < s.len() ==> stands_at(s, p, stands_from(s, p, from)),
    decreases s.len() - from,
{
    if from < s.len() && !stands_at(s, p, from) {
        lemma_stands_there(s, p, from + 1);
    }
}

/// White space around a text is trimmed, and nothing of the text.
pub proof fn white_space_around_a_text_is_trimmed(a: Seq<char>, s: Seq<char>, b: Seq<char>)
    requires
        forall|i: int| 0 <= i < a.len() ==> is_space(#[trigger] a[i]),
        forall|i: int| 0 <= i < b.len() ==> is_space(#[trigger] b[i]),
        s.len() > 0,
        !is_space(s[0]),
        !is_space(s.last()),
    ensures
        trimmed(a + s + b) == s,
{
    let t = a + s + b;
    let f = |c: char| !is_space(c);
    let n = a.len() as int;
    let e = n + s.len();
    assert forall|i: int| 0 <= i < n implies !f(#[trigger] t[i]) by {
        assert(t[i] == a[i]);
    }
    assert(t[n] == s[0]);
    lemma_find_from_is(t, f, 0, n);
    lemma_trim_end(t, n, t.len() as int);
    lemma_trim_end_spaces(t, t.len() as int);
    let k = trim_end_at(t, t.len() as int);
    assert(t[e - 1] == s.last());
    assert(k >= e) by {
        if k < e {
            assert(is_space(t[e - 1]));
        }
    }
    assert(k <= e) by {
        if k > e {
            assert(t[k - 1] == b[k - 1 - e]);
        }
    }
    assert(t.subrange(n, e) =~= s);
}

/// What stands behind a prefix is the rest of the text; a text that does not begin with it has no
/// such rest.
pub proof fn prefixes_are_taken_off(p: Seq<char>, s: Seq<char>)
    ensures
        behind(p + s, p) == Some(s),
        behind(s, p) is Some <==> p.is_prefix_of(s),
        ends_in(s + p, p),
{
    assert((p + s).subrange(0, p.len() as int) =~= p);
    assert((p + s).skip(p.len() as int) =~= s);
    assert((s + p).subrange(s.len() as int, (s + p).len() as int) =~= p);
    if p.is_prefix_of(s) {
        assert(s.subrange(0, p.len() as int) =~= p);
    }
}

/// Where a text is looked for in another, the first place at which it stands is found.
pub proof fn the_first_place_is_found(s: Seq<char>, p: Seq<char>, from: int)
    requires
        0 <= from <= s.len(),
        p.len() > 0,
    ensures
        from <= stands_from(s, p, from) <= s.len(),
        stands_from(s, p, from) < s.len() ==> stands_at(s, p, stands_from(s, p, from)),
        forall|j: int| from <= j < stands_from(s, p, from) ==> !stands_at(s, p, j),
    decreases s.len() - from,
{
    if from < s.len() && !stands_at(s, p, from) {
        the_first_place_is_found(s, p, from + 1);
    }
}

} // verus!
