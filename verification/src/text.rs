//! Character-level text handling shared by the title, query and URL logic.
//! Texts are handled as vectors of `char`; every operation is stated over
//! `Seq<char>`.

use vstd::prelude::*;
use vstd::string::*;

verus! {

/// The Unicode White_Space property (the characters `char::is_whitespace`
/// accepts): U+0009..U+000D, U+0020, U+0085, U+00A0, U+1680, U+2000..U+200A,
/// U+2028, U+2029, U+202F, U+205F and U+3000.
pub open spec fn is_ws(c: char) -> bool {
    let u = c as u32;
    ||| 0x09 <= u <= 0x0D
    ||| u == 0x20
    ||| u == 0x85
    ||| u == 0xA0
    ||| u == 0x1680
    ||| 0x2000 <= u <= 0x200A
    ||| u == 0x2028
    ||| u == 0x2029
    ||| u == 0x202F
    ||| u == 0x205F
    ||| u == 0x3000
}

/// Whether `c` is a whitespace character.
pub fn is_whitespace(c: char) -> (r: bool)
    ensures
        r == is_ws(c),
{
    let u = c as u32;
    (0x09 <= u && u <= 0x0D) || u == 0x20 || u == 0x85 || u == 0xA0 || u == 0x1680 || (0x2000
        <= u && u <= 0x200A) || u == 0x2028 || u == 0x2029 || u == 0x202F || u == 0x205F || u
        == 0x3000
}

/// Words found in a prefix of a text: the completed words and the word
/// still being read.
pub open spec fn scan_words(s: Seq<char>) -> (Seq<Seq<char>>, Seq<char>)
    decreases s.len(),
{
    if s.len() == 0 {
        (seq![], seq![])
    } else {
        let (done, cur) = scan_words(s.drop_last());
        if is_ws(s.last()) {
            if cur.len() > 0 {
                (done.push(cur), seq![])
            } else {
                (done, seq![])
            }
        } else {
            (done, cur.push(s.last()))
        }
    }
}

/// The maximal runs of non-whitespace characters of `s`, in order
/// (what `str::split_whitespace` yields).
pub open spec fn words(s: Seq<char>) -> Seq<Seq<char>> {
    let (done, cur) = scan_words(s);
    if cur.len() > 0 {
        done.push(cur)
    } else {
        done
    }
}

/// The characters of each text of a vector of texts.
pub open spec fn texts(v: Seq<Vec<char>>) -> Seq<Seq<char>> {
    Seq::new(v.len(), |i: int| v[i]@)
}

/// The items of `ws` with `sep` between each two neighbours.
pub open spec fn join(ws: Seq<Seq<char>>, sep: Seq<char>) -> Seq<char>
    decreases ws.len(),
{
    if ws.len() == 0 {
        seq![]
    } else if ws.len() == 1 {
        ws[0]
    } else {
        join(ws.drop_last(), sep) + sep + ws.last()
    }
}

/// `p` occurs in `s` at position `i`.
pub open spec fn occurs_at(s: Seq<char>, p: Seq<char>, i: int) -> bool {
    0 <= i && i + p.len() <= s.len() && s.subrange(i, i + p.len()) == p
}

/// `p` occurs somewhere in `s` (the empty text occurs in every text).
pub open spec fn contains_sub(s: Seq<char>, p: Seq<char>) -> bool {
    exists|i: int| occurs_at(s, p, i)
}

/// `s` with every occurrence of a non-empty `p` removed, matching from the
/// left without overlap (what `str::replace(p, "")` gives); an empty `p`
/// leaves `s` unchanged.
pub open spec fn remove_all(s: Seq<char>, p: Seq<char>) -> Seq<char>
    decreases s.len(),
{
    if p.len() == 0 || s.len() < p.len() {
        s
    } else if s.take(p.len() as int) == p {
        remove_all(s.skip(p.len() as int), p)
    } else {
        seq![s[0]] + remove_all(s.drop_first(), p)
    }
}

/// ASCII lowercase of one character; others are unchanged.
pub open spec fn ascii_lower(c: char) -> char {
    if 'A' <= c <= 'Z' {
        ((c as u32) + 32) as char
    } else {
        c
    }
}

/// The two texts are equal when ASCII letters are compared without case.
pub open spec fn eq_ascii_nocase(a: Seq<char>, b: Seq<char>) -> bool {
    a.len() == b.len() && forall|i: int| 0 <= i < a.len() ==> ascii_lower(a[i]) == ascii_lower(b[i])
}

/// Number of bytes of a character in UTF-8.
pub open spec fn char_utf8_len(c: char) -> nat {
    let u = c as u32;
    if u < 0x80 {
        1
    } else if u < 0x800 {
        2
    } else if u < 0x10000 {
        3
    } else {
        4
    }
}

/// Number of bytes of a text in UTF-8 (what `str::len` returns).
pub open spec fn utf8_len(s: Seq<char>) -> nat
    decreases s.len(),
{
    if s.len() == 0 {
        0
    } else {
        utf8_len(s.drop_last()) + char_utf8_len(s.last())
    }
}

/// The text in lowercase as `str::to_lowercase` gives it (Unicode rules).
pub uninterp spec fn lowercase(s: Seq<char>) -> Seq<char>;

/// Whether `char::is_alphanumeric` accepts `c` (Unicode Alphabetic or Numeric).
pub uninterp spec fn alphanumeric(c: char) -> bool;

/// Calls `str::to_lowercase`; claims that the result is determined by the
/// characters of `s` alone (named `lowercase`), and that an ASCII text is
/// lowercased letter by letter (the Unicode lowercase of an ASCII
/// character is its ASCII lowercase); nothing more is said of it.
#[verifier::external_body]
pub(crate) fn to_lowercase(s: &str) -> (r: String)
    ensures
        r@ == lowercase(s@),
        (forall|i: int| 0 <= i < s@.len() ==> (#[trigger] s@[i] as u32) < 0x80)
            ==> r@ == s@.map_values(|c: char| ascii_lower(c)),
{
    s.to_lowercase()
}

/// Calls `char::is_alphanumeric`; claims that the answer depends on `c`
/// alone (named `alphanumeric`), and that for an ASCII character it is
/// whether `c` is a letter or a digit.
#[verifier::external_body]
pub(crate) fn is_alphanumeric(c: char) -> (r: bool)
    ensures
        r == alphanumeric(c),
        (c as u32) < 0x80 ==> (r <==> (('a' <= c <= 'z') || ('A' <= c <= 'Z') || ('0' <= c <= '9'))),
{
    c.is_alphanumeric()
}

/// Calls `String::push`, which appends one character.
#[verifier::external_body]
pub(crate) fn push_char(s: &mut String, c: char)
    ensures
        final(s)@ == old(s)@.push(c),
{
    s.push(c)
}

/// The characters of `s`.
pub fn chars_of(s: &str) -> (r: Vec<char>)
    ensures
        r@ == s@,
{
    let n = s.unicode_len();
    let mut r: Vec<char> = Vec::new();
    let mut i: usize = 0;
    while i < n
        invariant
            n == s@.len(),
            i <= n,
            r@ == s@.take(i as int),
        decreases n - i,
    {
        let c = s.get_char(i);
        r.push(c);
        i = i + 1;
        assert(r@ == s@.take(i as int));
    }
    assert(s@.take(n as int) == s@);
    r
}

/// A `String` holding the characters of `v`.
pub fn string_of(v: &Vec<char>) -> (r: String)
    ensures
        r@ == v@,
{
    let mut r = String::new();
    let mut i: usize = 0;
    while i < v.len()
        invariant
            i <= v.len(),
            r@ == v@.take(i as int),
        decreases v.len() - i,
    {
        push_char(&mut r, v[i]);
        i = i + 1;
        assert(r@ == v@.take(i as int));
    }
    assert(v@.take(v.len() as int) == v@);
    r
}

/// Character-wise equality of two texts.
pub fn chars_eq(a: &Vec<char>, b: &Vec<char>) -> (r: bool)
    ensures
        r == (a@ == b@),
{
    if a.len() != b.len() {
        return false;
    }
    let mut i: usize = 0;
    while i < a.len()
        invariant
            a.len() == b.len(),
            i <= a.len(),
            forall|j: int| 0 <= j < i ==> a@[j] == b@[j],
        decreases a.len() - i,
    {
        if a[i] != b[i] {
            return false;
        }
        i = i + 1;
    }
    assert(a@ =~= b@);
    true
}

/// Whether `s` equals the string slice `lit`.
pub fn eq_str(s: &Vec<char>, lit: &str) -> (r: bool)
    ensures
        r == (s@ == lit@),
{
    let l = chars_of(lit);
    chars_eq(s, &l)
}

/// The words of `s` separated by whitespace.
pub fn split_whitespace(s: &Vec<char>) -> (r: Vec<Vec<char>>)
    ensures
        texts(r@) == words(s@),
{
    let mut done: Vec<Vec<char>> = Vec::new();
    let mut cur: Vec<char> = Vec::new();
    let mut i: usize = 0;
    while i < s.len()
        invariant
            i <= s.len(),
            (texts(done@), cur@) == scan_words(s@.take(i as int)),
        decreases s.len() - i,
    {
        let c = s[i];
        let ghost prev = texts(done@);
        assert(s@.take(i + 1).drop_last() == s@.take(i as int));
        if is_whitespace(c) {
            if cur.len() > 0 {
                let w = cur;
                done.push(w);
                cur = Vec::new();
                assert(texts(done@) =~= prev.push(w@));
            }
        } else {
            cur.push(c);
        }
        i = i + 1;
    }
    assert(s@.take(s.len() as int) == s@);
    if cur.len() > 0 {
        let ghost prev = texts(done@);
        let w = cur;
        done.push(w);
        assert(texts(done@) =~= prev.push(w@));
    }
    done
}

/// The texts of `ws` joined with `sep`.
pub fn join_with(ws: &Vec<Vec<char>>, sep: &Vec<char>) -> (r: Vec<char>)
    ensures
        r@ == join(texts(ws@), sep@),
{
    let mut r: Vec<char> = Vec::new();
    let mut i: usize = 0;
    while i < ws.len()
        invariant
            i <= ws.len(),
            r@ == join(texts(ws@).take(i as int), sep@),
        decreases ws.len() - i,
    {
        assert(texts(ws@).take(i + 1).drop_last() == texts(ws@).take(i as int));
        if i > 0 {
            append_chars(&mut r, sep);
        }
        append_chars(&mut r, &ws[i]);
        i = i + 1;
    }
    assert(texts(ws@).take(ws.len() as int) == texts(ws@));
    r
}

/// Appends the characters of `b` to `a`.
pub fn append_chars(a: &mut Vec<char>, b: &Vec<char>)
    ensures
        final(a)@ == old(a)@ + b@,
{
    let mut i: usize = 0;
    while i < b.len()
        invariant
            i <= b.len(),
            a@ == old(a)@ + b@.take(i as int),
        decreases b.len() - i,
    {
        a.push(b[i]);
        i = i + 1;
        assert(a@ =~= old(a)@ + b@.take(i as int));
    }
    assert(b@.take(b.len() as int) == b@);
}

/// Whether `p` occurs in `s` starting at position `i`.
pub fn matches_at(s: &Vec<char>, p: &Vec<char>, i: usize) -> (r: bool)
    ensures
        r == occurs_at(s@, p@, i as int),
{
    if i > s.len() || p.len() > s.len() - i {
        return false;
    }
    let mut j: usize = 0;
    while j < p.len()
        invariant
            i + p.len() <= s.len(),
            j <= p.len(),
            forall|k: int| 0 <= k < j ==> s@[i + k] == p@[k],
        decreases p.len() - j,
    {
        if s[i + j] != p[j] {
            assert(s@.subrange(i as int, i + p.len())[j as int] != p@[j as int]);
            return false;
        }
        j = j + 1;
    }
    assert(s@.subrange(i as int, i + p.len()) =~= p@);
    true
}

/// Whether `p` occurs in `s`.
pub fn contains(s: &Vec<char>, p: &Vec<char>) -> (r: bool)
    ensures
        r == contains_sub(s@, p@),
{
    if p.len() > s.len() {
        assert forall|i: int| !occurs_at(s@, p@, i) by {}
        return false;
    }
    let mut i: usize = 0;
    while i < s.len() && p.len() <= s.len() - i
        invariant
            p.len() <= s.len(),
            i <= s.len(),
            forall|k: int| 0 <= k < i ==> !occurs_at(s@, p@, k),
        decreases s.len() - i,
    {
        if matches_at(s, p, i) {
            return true;
        }
        i = i + 1;
    }
    if i == s.len() && p.len() == 0 {
        assert(s@.subrange(i as int, i as int) =~= p@);
        assert(occurs_at(s@, p@, i as int));
        return true;
    }
    assert forall|k: int| !occurs_at(s@, p@, k) by {
        if 0 <= k < i {
        }
    }
    false
}

/// `s` with every occurrence of `p` removed (left to right, no overlap).
pub fn remove_all_of(s: &Vec<char>, p: &Vec<char>) -> (r: Vec<char>)
    ensures
        r@ == remove_all(s@, p@),
{
    let mut r: Vec<char> = Vec::new();
    if p.len() == 0 {
        append_chars(&mut r, s);
        return r;
    }
    let mut i: usize = 0;
    assert(s@.skip(0) == s@);
    while i < s.len()
        invariant
            p@.len() > 0,
            i <= s.len(),
            r@ + remove_all(s@.skip(i as int), p@) == remove_all(s@, p@),
        decreases s.len() - i,
    {
        let ghost rest = s@.skip(i as int);
        if p.len() <= s.len() - i && matches_at(s, p, i) {
            assert(rest.take(p.len() as int) =~= s@.subrange(i as int, i + p.len()));
            assert(rest.skip(p.len() as int) =~= s@.skip(i + p.len()));
            i = i + p.len();
        } else {
            if p.len() <= s.len() - i {
                assert(rest.take(p.len() as int) =~= s@.subrange(i as int, i + p.len()));
                assert(rest.drop_first() =~= s@.skip(i + 1));
                r.push(s[i]);
                i = i + 1;
                assert(r@ + remove_all(s@.skip(i as int), p@) =~= remove_all(s@, p@));
            } else {
                let ghost before = r@;
                append_chars(&mut r, &slice_from(s, i));
                assert(remove_all(rest, p@) == rest);
                i = s.len();
                assert(s@.skip(i as int) =~= Seq::<char>::empty());
                assert(remove_all(s@.skip(i as int), p@) == s@.skip(i as int));
            }
        }
    }
    assert(s@.skip(s.len() as int) =~= Seq::<char>::empty());
    r
}

/// The characters of `s` from position `i` on.
pub fn slice_from(s: &Vec<char>, i: usize) -> (r: Vec<char>)
    requires
        i <= s.len(),
    ensures
        r@ == s@.skip(i as int),
{
    let mut r: Vec<char> = Vec::new();
    let mut k: usize = i;
    while k < s.len()
        invariant
            i <= k <= s.len(),
            r@ == s@.subrange(i as int, k as int),
        decreases s.len() - k,
    {
        r.push(s[k]);
        k = k + 1;
        assert(r@ =~= s@.subrange(i as int, k as int));
    }
    assert(r@ =~= s@.skip(i as int));
    r
}

/// ASCII lowercase of one character.
pub fn to_ascii_lower(c: char) -> (r: char)
    ensures
        r == ascii_lower(c),
{
    if 'A' <= c && c <= 'Z' {
        let u = (c as u32) + 32;
        assert(0x61 <= u <= 0x7A);
        char_from_ascii(u)
    } else {
        c
    }
}

/// The character with an ASCII code point.
pub fn char_from_ascii(u: u32) -> (r: char)
    requires
        u < 128,
    ensures
        r == u as char,
        r as u32 == u,
{
    let b = u as u8;
    b as char
}

/// Decimal digits of a number, most significant first, as `{}` writes it.
pub open spec fn decimal(n: nat) -> Seq<char>
    decreases n,
{
    if n < 10 {
        seq![(('0' as nat) + n) as char]
    } else {
        decimal(n / 10) + seq![(('0' as nat) + n % 10) as char]
    }
}

/// The decimal digits of a number.
pub fn decimal_chars(n: u64) -> (r: Vec<char>)
    ensures
        r@ == decimal(n as nat),
    decreases n,
{
    if n < 10 {
        let mut r: Vec<char> = Vec::new();
        r.push(char_from_ascii(0x30 + n as u32));
        r
    } else {
        let mut r = decimal_chars(n / 10);
        r.push(char_from_ascii(0x30 + (n % 10) as u32));
        r
    }
}

/// Equality of two texts up to the case of ASCII letters.
pub fn eq_ignore_ascii_case(a: &Vec<char>, b: &Vec<char>) -> (r: bool)
    ensures
        r == eq_ascii_nocase(a@, b@),
{
    if a.len() != b.len() {
        return false;
    }
    let mut i: usize = 0;
    while i < a.len()
        invariant
            a.len() == b.len(),
            i <= a.len(),
            forall|k: int| 0 <= k < i ==> ascii_lower(a@[k]) == ascii_lower(b@[k]),
        decreases a.len() - i,
    {
        if to_ascii_lower(a[i]) != to_ascii_lower(b[i]) {
            return false;
        }
        i = i + 1;
    }
    true
}

/// UTF-8 length in bytes of a text, saturating at `usize::MAX`.
pub fn byte_len(s: &Vec<char>) -> (r: usize)
    ensures
        r as nat == if utf8_len(s@) < usize::MAX { utf8_len(s@) } else { usize::MAX as nat },
{
    let mut n: usize = 0;
    let mut i: usize = 0;
    while i < s.len()
        invariant
            i <= s.len(),
            n as nat == if utf8_len(s@.take(i as int)) < usize::MAX { utf8_len(s@.take(i as int)) } else { usize::MAX as nat },
        decreases s.len() - i,
    {
        assert(s@.take(i + 1).drop_last() == s@.take(i as int));
        let u = s[i] as u32;
        let w: usize = if u < 0x80 { 1 } else if u < 0x800 { 2 } else if u < 0x10000 { 3 } else { 4 };
        if n >= usize::MAX - w {
            n = usize::MAX;
        } else {
            n = n + w;
        }
        i = i + 1;
    }
    assert(s@.take(s.len() as int) == s@);
    n
}

/// The texts of a list of string slices.
pub open spec fn str_texts(list: Seq<&str>) -> Seq<Seq<char>> {
    Seq::new(list.len(), |i: int| list[i]@)
}

/// Whether `w` is one of the texts of `list`.
pub fn in_list(w: &Vec<char>, list: &[&str]) -> (r: bool)
    ensures
        r == str_texts(list@).contains(w@),
{
    let mut i: usize = 0;
    while i < list.len()
        invariant
            i <= list@.len(),
            forall|k: int| 0 <= k < i ==> str_texts(list@)[k] != w@,
        decreases list@.len() - i,
    {
        if eq_str(w, list[i]) {
            assert(str_texts(list@)[i as int] == w@);
            return true;
        }
        i = i + 1;
    }
    false
}

/// Whether `w` equals one of the texts of `list` up to ASCII case.
pub fn in_list_nocase(w: &Vec<char>, list: &[&str]) -> (r: bool)
    ensures
        r == exists|k: int| 0 <= k < list@.len() && eq_ascii_nocase(w@, #[trigger] str_texts(list@)[k]),
{
    let mut i: usize = 0;
    while i < list.len()
        invariant
            i <= list@.len(),
            forall|k: int| 0 <= k < i ==> !eq_ascii_nocase(w@, #[trigger] str_texts(list@)[k]),
        decreases list@.len() - i,
    {
        let l = chars_of(list[i]);
        if eq_ignore_ascii_case(w, &l) {
            assert(eq_ascii_nocase(w@, str_texts(list@)[i as int]));
            return true;
        }
        i = i + 1;
    }
    false
}

/// A copy of a text.
pub fn copy_chars(v: &Vec<char>) -> (r: Vec<char>)
    ensures
        r@ == v@,
{
    let mut r: Vec<char> = Vec::new();
    append_chars(&mut r, v);
    r
}

/// A copy of an optional string.
pub fn clone_opt_string(o: &Option<String>) -> (r: Option<String>)
    ensures
        r == *o,
{
    match o {
        Some(s) => Some(s.clone()),
        None => None,
    }
}

/// `s` with each space, `&`, `?` and `#` written as `+`, `%26`, `%3F` and
/// `%23`.
pub open spec fn plus_encode(s: Seq<char>) -> Seq<char>
    decreases s.len(),
{
    if s.len() == 0 {
        seq![]
    } else {
        let c = s.last();
        plus_encode(s.drop_last()) + if c == ' ' {
            "+"@
        } else if c == '&' {
            "%26"@
        } else if c == '?' {
            "%3F"@
        } else if c == '#' {
            "%23"@
        } else {
            seq![c]
        }
    }
}

/// Escapes space, `&`, `?` and `#` for a query string.
pub fn plus_encoded(s: &str) -> (r: String)
    ensures
        r@ == plus_encode(s@),
{
    let v = chars_of(s);
    let mut out: Vec<char> = Vec::new();
    let mut i: usize = 0;
    while i < v.len()
        invariant
            v@ == s@,
            i <= v.len(),
            out@ == plus_encode(v@.take(i as int)),
        decreases v.len() - i,
    {
        assert(v@.take(i + 1).drop_last() == v@.take(i as int));
        let c = v[i];
        if c == ' ' {
            append_chars(&mut out, &chars_of("+"));
        } else if c == '&' {
            append_chars(&mut out, &chars_of("%26"));
        } else if c == '?' {
            append_chars(&mut out, &chars_of("%3F"));
        } else if c == '#' {
            append_chars(&mut out, &chars_of("%23"));
        } else {
            out.push(c);
        }
        i = i + 1;
    }
    assert(v@.take(v.len() as int) == v@);
    string_of(&out)
}

/// `s` with every character `a` replaced by `b`.
pub open spec fn replace_char(s: Seq<char>, a: char, b: char) -> Seq<char> {
    Seq::new(s.len(), |i: int| if s[i] == a { b } else { s[i] })
}

/// Replaces every `a` in `s` by `b`.
pub fn replace_char_in(s: &Vec<char>, a: char, b: char) -> (r: Vec<char>)
    ensures
        r@ == replace_char(s@, a, b),
{
    let mut r: Vec<char> = Vec::new();
    let mut i: usize = 0;
    while i < s.len()
        invariant
            i <= s.len(),
            r@ == replace_char(s@, a, b).take(i as int),
        decreases s.len() - i,
    {
        r.push(if s[i] == a { b } else { s[i] });
        i = i + 1;
        assert(r@ =~= replace_char(s@, a, b).take(i as int));
    }
    assert(replace_char(s@, a, b).take(s.len() as int) =~= replace_char(s@, a, b));
    r
}

/// The escaped text holds no space, `&`, `?` or `#`, so it stays one query
/// value.
pub proof fn lemma_plus_encode_clean(s: Seq<char>)
    ensures
        forall|i: int| 0 <= i < plus_encode(s).len() ==> {
            let c = #[trigger] plus_encode(s)[i];
            c != ' ' && c != '&' && c != '?' && c != '#'
        },
    decreases s.len(),
{
    reveal_strlit("+");
    reveal_strlit("%26");
    reveal_strlit("%3F");
    reveal_strlit("%23");
    if s.len() > 0 {
        lemma_plus_encode_clean(s.drop_last());
        let p = plus_encode(s.drop_last());
        let c = s.last();
        let t = if c == ' ' {
            "+"@
        } else if c == '&' {
            "%26"@
        } else if c == '?' {
            "%3F"@
        } else if c == '#' {
            "%23"@
        } else {
            seq![c]
        };
        assert(plus_encode(s) == p + t);
        assert forall|i: int| 0 <= i < plus_encode(s).len() implies {
            let d = #[trigger] plus_encode(s)[i];
            d != ' ' && d != '&' && d != '?' && d != '#'
        } by {
            if i < p.len() {
                assert(plus_encode(s)[i] == p[i]);
            } else {
                assert(plus_encode(s)[i] == t[i - p.len()]);
            }
        }
    }
}

} // verus!
