//! Text: the handful of string operations the rest of the crate is built on,
//! each stated over the characters of the string.

use vstd::prelude::*;
use vstd::string::*;
use vstd::utf8::*;

verus! {

/// Whether two texts hold the same characters.
pub fn same_text(a: &str, b: &str) -> (same: bool)
    ensures
        same == (a@ == b@),
{
    let x = a.as_bytes();
    let y = b.as_bytes();
    proof {
        encode_utf8_decode_utf8(a@);
        encode_utf8_decode_utf8(b@);
    }
    if x.len() != y.len() {
        return false;
    }
    let mut i: usize = 0;
    while i < x.len()
        invariant
            i <= x@.len(),
            x@.len() == y@.len(),
            x@ == encode_utf8(a@),
            y@ == encode_utf8(b@),
            forall|j: int| 0 <= j < i ==> x@[j] == y@[j],
        decreases x@.len() - i,
    {
        if x[i] != y[i] {
            return false;
        }
        i += 1;
    }
    assert(x@ =~= y@);
    true
}

/// The characters of a text.
pub fn chars_of(s: &str) -> (cs: Vec<char>)
    ensures
        cs@ == s@,
{
    let mut cs: Vec<char> = Vec::new();
    for c in it: s.chars()
        invariant
            it.seq() == s@,
            cs@ == s@.take(it.index() as int),
    {
        cs.push(c);
        assert(s@.take(it.index() as int + 1) =~= s@.take(it.index() as int).push(c));
    }
    assert(s@.take(s@.len() as int) =~= s@);
    cs
}

/// The text made of the given characters.
pub fn text_of(cs: &[char]) -> (s: String)
    ensures
        s@ == cs@,
{
    let mut s = String::new();
    let mut i: usize = 0;
    while i < cs.len()
        invariant
            i <= cs@.len(),
            s@ == cs@.take(i as int),
        decreases cs@.len() - i,
    {
        s.push(cs[i]);
        assert(cs@.take(i as int + 1) =~= cs@.take(i as int).push(cs@[i as int]));
        i += 1;
    }
    assert(cs@.take(cs@.len() as int) =~= cs@);
    s
}

/// The characters `from..to` of a text, as a text of their own.
pub fn piece_of(cs: &Vec<char>, from: usize, to: usize) -> (s: String)
    requires
        from <= to <= cs@.len(),
    ensures
        s@ == cs@.subrange(from as int, to as int),
{
    let mut s = String::new();
    let mut i: usize = from;
    while i < to
        invariant
            from <= i <= to <= cs@.len(),
            s@ == cs@.subrange(from as int, i as int),
        decreases to - i,
    {
        s.push(cs[i]);
        assert(cs@.subrange(from as int, i as int + 1) =~= cs@.subrange(
            from as int,
            i as int,
        ).push(cs@[i as int]));
        i += 1;
    }
    s
}

/// Two texts, one after the other.
pub fn cat2(a: &str, b: &str) -> (s: String)
    ensures
        s@ == a@ + b@,
{
    let mut s = a.to_owned();
    s.append(b);
    s
}

/// Three texts, one after the other.
pub fn cat3(a: &str, b: &str, c: &str) -> (s: String)
    ensures
        s@ == a@ + b@ + c@,
{
    let mut s = a.to_owned();
    s.append(b);
    s.append(c);
    s
}

/// Four texts, one after the other.
pub fn cat4(a: &str, b: &str, c: &str, d: &str) -> (s: String)
    ensures
        s@ == a@ + b@ + c@ + d@,
{
    let mut s = a.to_owned();
    s.append(b);
    s.append(c);
    s.append(d);
    s
}

/// Five texts, one after the other.
pub fn cat5(a: &str, b: &str, c: &str, d: &str, e: &str) -> (s: String)
    ensures
        s@ == a@ + b@ + c@ + d@ + e@,
{
    let mut s = a.to_owned();
    s.append(b);
    s.append(c);
    s.append(d);
    s.append(e);
    s
}

// ---------------------------------------------------------------------------
// Searching
// ---------------------------------------------------------------------------

/// `part` stands in `whole` at position `at`.
pub open spec fn stands_at<T>(whole: Seq<T>, part: Seq<T>, at: int) -> bool {
    &&& 0 <= at
    &&& at + part.len() <= whole.len()
    &&& whole.subrange(at, at + part.len()) == part
}

/// `part` stands somewhere in `whole`.
pub open spec fn occurs_in<T>(part: Seq<T>, whole: Seq<T>) -> bool {
    exists|at: int| stands_at(whole, part, at)
}

/// The position at which `part` first stands in `whole`.
pub open spec fn first_at<T>(whole: Seq<T>, part: Seq<T>, at: int) -> bool {
    &&& stands_at(whole, part, at)
    &&& forall|j: int| 0 <= j < at ==> !stands_at(whole, part, j)
}

fn stands_here(whole: &Vec<char>, part: &Vec<char>, at: usize) -> (r: bool)
    requires
        at <= whole@.len(),
    ensures
        r == stands_at(whole@, part@, at as int),
{
    if part.len() > whole.len() - at {
        return false;
    }
    let total: usize = whole.len();
    let mut i: usize = 0;
    while i < part.len()
        invariant
            i <= part@.len(),
            at + part@.len() <= whole@.len(),
            whole@.len() == total,
            forall|j: int| 0 <= j < i ==> whole@[at + j] == part@[j],
        decreases part@.len() - i,
    {
        if whole[at + i] != part[i] {
            assert(whole@.subrange(at as int, at + part@.len())[i as int] == whole@[at + i]);
            return false;
        }
        i += 1;
    }
    assert(whole@.subrange(at as int, at + part@.len()) =~= part@);
    true
}

/// Where `part` first stands in `whole`, if it does.
pub fn find_chars(whole: &Vec<char>, part: &Vec<char>) -> (r: Option<usize>)
    ensures
        match r {
            Some(at) => first_at(whole@, part@, at as int),
            None => !occurs_in(part@, whole@),
        },
{
    let mut at: usize = 0;
    loop
        invariant
            at <= whole@.len(),
            forall|j: int| 0 <= j < at ==> !stands_at(whole@, part@, j),
        decreases whole@.len() - at,
    {
        if stands_here(whole, part, at) {
            return Some(at);
        }
        if at == whole.len() {
            return None;
        }
        at += 1;
    }
}

/// Whether `part` stands somewhere in `whole`.
pub fn contains_text(whole: &str, part: &str) -> (r: bool)
    ensures
        r == occurs_in(part@, whole@),
{
    let w = chars_of(whole);
    let p = chars_of(part);
    find_chars(&w, &p).is_some()
}

/// The first position of a character, if it occurs.
pub open spec fn first_char_at(s: Seq<char>, c: char, at: int) -> bool {
    0 <= at < s.len() && s[at] == c && !s.take(at).contains(c)
}

/// Where a character first occurs, if it does.
pub fn find_char(cs: &Vec<char>, c: char) -> (r: Option<usize>)
    ensures
        match r {
            Some(at) => first_char_at(cs@, c, at as int),
            None => !cs@.contains(c),
        },
{
    let mut i: usize = 0;
    while i < cs.len()
        invariant
            i <= cs@.len(),
            forall|j: int| 0 <= j < i ==> cs@[j] != c,
        decreases cs@.len() - i,
    {
        if cs[i] == c {
            assert(!cs@.take(i as int).contains(c));
            return Some(i);
        }
        i += 1;
    }
    None
}

/// A text cut at the first occurrence of a character: what stands before it and
/// what stands behind it.
pub open spec fn cut(s: Seq<char>, c: char) -> Option<(Seq<char>, Seq<char>)> {
    if s.contains(c) {
        let at = choose|at: int| first_char_at(s, c, at);
        Some((s.take(at), s.skip(at + 1)))
    } else {
        None
    }
}

/// A character that occurs, occurs first somewhere.
pub proof fn lemma_cut(s: Seq<char>, c: char, at: int)
    requires
        first_char_at(s, c, at),
    ensures
        cut(s, c) == Some((s.take(at), s.skip(at + 1))),
{
    assert(s.contains(c));
    let other = choose|i: int| first_char_at(s, c, i);
    assert(first_char_at(s, c, other));
    if other < at {
        assert(s.take(at)[other] == c);
    } else if at < other {
        assert(s.take(other)[at] == c);
    }
}

/// Cuts a text at the first occurrence of a character.
pub fn split_once(s: &str, c: char) -> (r: Option<(String, String)>)
    ensures
        match r {
            Some(p) => cut(s@, c) == Some((p.0@, p.1@)),
            None => cut(s@, c) is None,
        },
{
    let cs = chars_of(s);
    let n: usize = cs.len();
    match find_char(&cs, c) {
        Some(at) => {
            proof {
                lemma_cut(s@, c, at as int);
                assert(cs@.subrange(0, at as int) =~= s@.take(at as int));
                assert(cs@.subrange(at + 1, cs@.len() as int) =~= s@.skip(at + 1));
            }
            Some((piece_of(&cs, 0, at), piece_of(&cs, at + 1, n)))
        },
        None => None,
    }
}

/// A text cut at the first occurrence of another.
pub open spec fn cut_at(s: Seq<char>, part: Seq<char>) -> Option<(Seq<char>, Seq<char>)> {
    if occurs_in(part, s) {
        let at = choose|at: int| first_at(s, part, at);
        Some((s.take(at), s.skip(at + part.len())))
    } else {
        None
    }
}

/// Cuts a text at the first occurrence of another.
pub fn split_once_at(s: &str, part: &str) -> (r: Option<(String, String)>)
    ensures
        match r {
            Some(p) => cut_at(s@, part@) == Some((p.0@, p.1@)),
            None => cut_at(s@, part@) is None,
        },
{
    let cs = chars_of(s);
    let ps = chars_of(part);
    let n: usize = cs.len();
    match find_chars(&cs, &ps) {
        Some(at) => {
            proof {
                assert(stands_at(s@, part@, at as int));
                let other = choose|i: int| first_at(s@, part@, i);
                assert(first_at(s@, part@, other));
                assert(other == at);
                assert(cs@.subrange(0, at as int) =~= s@.take(at as int));
                assert(cs@.subrange(at + ps@.len(), cs@.len() as int) =~= s@.skip(at + ps@.len()));
            }
            Some((piece_of(&cs, 0, at), piece_of(&cs, at + ps.len(), n)))
        },
        None => None,
    }
}

/// Whether a text begins with another.
pub fn begins_with(whole: &str, part: &str) -> (r: bool)
    ensures
        r == part@.is_prefix_of(whole@),
{
    let w = chars_of(whole);
    let p = chars_of(part);
    let r = stands_here(&w, &p, 0);
    proof {
        if p@.len() <= w@.len() {
            assert(w@.subrange(0, p@.len() as int) =~= w@.take(p@.len() as int));
        }
    }
    r
}

/// Whether a text ends with another.
pub fn finishes_with(whole: &str, part: &str) -> (r: bool)
    ensures
        r == part@.is_suffix_of(whole@),
{
    let w = chars_of(whole);
    let p = chars_of(part);
    if p.len() > w.len() {
        return false;
    }
    let r = stands_here(&w, &p, w.len() - p.len());
    proof {
        assert(w@.subrange(w@.len() - p@.len(), w@.len() as int) =~= w@.skip(w@.len() - p@.len()));
    }
    r
}

// ---------------------------------------------------------------------------
// Numbers
// ---------------------------------------------------------------------------

/// One decimal digit.
pub open spec fn digit_char(d: nat) -> char {
    (48 + d) as char
}

/// A number in decimal, without leading zeros.
pub open spec fn decimal_text(n: nat) -> Seq<char>
    decreases n,
{
    if n < 10 {
        seq![digit_char(n)]
    } else {
        decimal_text(n / 10).push(digit_char(n % 10))
    }
}

/// Different numbers are written differently.
pub proof fn lemma_decimal_text_is_one_to_one(a: nat, b: nat)
    requires
        decimal_text(a) == decimal_text(b),
    ensures
        a == b,
    decreases a,
{
    let x = decimal_text(a);
    let y = decimal_text(b);
    lemma_decimal_text_len(a);
    lemma_decimal_text_len(b);
    assert(x.last() == y.last());
    assert(a % 10 == b % 10);
    if a < 10 || b < 10 {
        if a >= 10 {
            lemma_decimal_text_len(a / 10);
        }
        if b >= 10 {
            lemma_decimal_text_len(b / 10);
        }
    } else {
        assert(x.drop_last() =~= decimal_text(a / 10));
        assert(y.drop_last() =~= decimal_text(b / 10));
        lemma_decimal_text_is_one_to_one(a / 10, b / 10);
    }
}

proof fn lemma_decimal_text_len(n: nat)
    ensures
        decimal_text(n).len() >= 1,
        decimal_text(n).last() == digit_char(n % 10),
        n < 10 ==> decimal_text(n).len() == 1,
    decreases n,
{
    if n >= 10 {
        lemma_decimal_text_len(n / 10);
    }
}

fn digit(d: u8) -> (c: char)
    requires
        d < 10,
    ensures
        c == digit_char(d as nat),
{
    (48 + d) as char
}

fn push_decimal(out: &mut String, n: u64)
    ensures
        final(out)@ == old(out)@ + decimal_text(n as nat),
    decreases n,
{
    if n < 10 {
        out.push(digit(n as u8));
    } else {
        push_decimal(out, n / 10);
        out.push(digit((n % 10) as u8));
    }
}

/// A number in decimal, without leading zeros.
pub fn decimal(n: u64) -> (s: String)
    ensures
        s@ == decimal_text(n as nat),
{
    let mut s = String::new();
    push_decimal(&mut s, n);
    s
}

/// One hexadecimal digit in upper case.
pub open spec fn upper_hex_char(d: nat) -> char {
    if d < 10 {
        (48 + d) as char
    } else {
        (55 + d) as char
    }
}

/// A number in upper-case hexadecimal, padded with zeros to at least `width`
/// digits.
pub open spec fn upper_hex_text(n: nat, width: nat) -> Seq<char>
    decreases n + width,
{
    if n == 0 && width == 0 {
        Seq::empty()
    } else {
        let fewer = if width == 0 {
            0
        } else {
            (width - 1) as nat
        };
        upper_hex_text(n / 16, fewer).push(upper_hex_char(n % 16))
    }
}

fn upper_hex_digit(d: u8) -> (c: char)
    requires
        d < 16,
    ensures
        c == upper_hex_char(d as nat),
{
    if d < 10 {
        (48 + d) as char
    } else {
        (55 + d) as char
    }
}

fn push_upper_hex(out: &mut String, n: u32, width: usize)
    ensures
        final(out)@ == old(out)@ + upper_hex_text(n as nat, width as nat),
    decreases n as nat + width as nat,
{
    if n > 0 || width > 0 {
        let fewer: usize = if width == 0 {
            0
        } else {
            width - 1
        };
        push_upper_hex(out, n / 16, fewer);
        out.push(upper_hex_digit((n % 16) as u8));
    }
}

/// A number in upper-case hexadecimal, padded with zeros to at least `width`
/// digits.
pub fn upper_hex(n: u32, width: usize) -> (s: String)
    ensures
        s@ == upper_hex_text(n as nat, width as nat),
{
    let mut s = String::new();
    push_upper_hex(&mut s, n, width);
    s
}

// ---------------------------------------------------------------------------
// White space and lines
// ---------------------------------------------------------------------------

/// The characters that Unicode calls white space.
pub open spec fn is_white(c: char) -> bool {
    let n = c as u32;
    ||| 9 <= n <= 13
    ||| n == 0x20
    ||| n == 0x85
    ||| n == 0xA0
    ||| n == 0x1680
    ||| 0x2000 <= n <= 0x200A
    ||| n == 0x2028
    ||| n == 0x2029
    ||| n == 0x202F
    ||| n == 0x205F
    ||| n == 0x3000
}

/// Whether a character is white space.
pub fn white(c: char) -> (r: bool)
    ensures
        r == is_white(c),
{
    let n: u32 = c as u32;
    (9 <= n && n <= 13) || n == 0x20 || n == 0x85 || n == 0xA0 || n == 0x1680 || (0x2000 <= n && n
        <= 0x200A) || n == 0x2028 || n == 0x2029 || n == 0x202F || n == 0x205F || n == 0x3000
}

/// A text of nothing but white space.
pub open spec fn is_blank(s: Seq<char>) -> bool {
    forall|i: int| 0 <= i < s.len() ==> is_white(#[trigger] s[i])
}

/// Whether a text is nothing but white space.
pub fn blank(cs: &Vec<char>) -> (r: bool)
    ensures
        r == is_blank(cs@),
{
    let mut i: usize = 0;
    while i < cs.len()
        invariant
            i <= cs@.len(),
            forall|j: int| 0 <= j < i ==> is_white(#[trigger] cs@[j]),
        decreases cs@.len() - i,
    {
        if !white(cs[i]) {
            return false;
        }
        i += 1;
    }
    true
}

/// A text without the line ends at its end.
pub open spec fn without_line_ends(s: Seq<char>) -> Seq<char>
    decreases s.len(),
{
    if s.len() > 0 && (s.last() == '\n' || s.last() == '\r') {
        without_line_ends(s.drop_last())
    } else {
        s
    }
}

/// Drops the line ends at the end of a text.
pub fn drop_line_ends(cs: Vec<char>) -> (r: Vec<char>)
    ensures
        r@ == without_line_ends(cs@),
{
    let mut r = cs;
    while r.len() > 0 && (r[r.len() - 1] == '\n' || r[r.len() - 1] == '\r')
        invariant
            without_line_ends(r@) == without_line_ends(cs@),
        decreases r@.len(),
    {
        let last = r.pop();
    }
    r
}

// ---------------------------------------------------------------------------
// Letter case
// ---------------------------------------------------------------------------

/// A character with an ASCII capital made small.
pub open spec fn small(c: char) -> char {
    if 'A' <= c <= 'Z' {
        (c as u32 + 32) as char
    } else {
        c
    }
}

/// Two texts that differ at most in the case of ASCII letters.
pub open spec fn same_but_case(a: Seq<char>, b: Seq<char>) -> bool {
    a.len() == b.len() && forall|i: int| 0 <= i < a.len() ==> small(#[trigger] a[i]) == small(b[i])
}

fn make_small(c: char) -> (r: char)
    ensures
        r == small(c),
{
    if 'A' <= c && c <= 'Z' {
        ((c as u8) + 32) as char
    } else {
        c
    }
}

/// Whether two texts differ at most in the case of ASCII letters.
pub fn same_ignoring_case(a: &str, b: &str) -> (r: bool)
    ensures
        r == same_but_case(a@, b@),
{
    let x = chars_of(a);
    let y = chars_of(b);
    if x.len() != y.len() {
        return false;
    }
    let mut i: usize = 0;
    while i < x.len()
        invariant
            i <= x@.len(),
            x@ == a@,
            y@ == b@,
            x@.len() == y@.len(),
            forall|j: int| 0 <= j < i ==> small(#[trigger] x@[j]) == small(y@[j]),
        decreases x@.len() - i,
    {
        if make_small(x[i]) != make_small(y[i]) {
            assert(small(a@[i as int]) != small(b@[i as int]));
            return false;
        }
        i += 1;
    }
    true
}

// ---------------------------------------------------------------------------
// Laws
// ---------------------------------------------------------------------------

proof fn lemma_first_char(s: Seq<char>, c: char, some: int) -> (at: int)
    requires
        0 <= some < s.len(),
        s[some] == c,
    ensures
        first_char_at(s, c, at),
        at <= some,
    decreases some,
{
    if s.take(some).contains(c) {
        let i = choose|i: int| 0 <= i < some && s.take(some)[i] == c;
        lemma_first_char(s, c, i)
    } else {
        some
    }
}

/// A text is cut at a character exactly when the character occurs in it, and then at the
/// first place: the two pieces with the character between them are the text, and the
/// first piece does not hold it.
pub proof fn law_a_text_is_cut_at_the_first_place(s: Seq<char>, c: char)
    ensures
        cut(s, c) is Some <==> s.contains(c),
        cut(s, c) matches Some((head, tail)) ==> s == head + seq![c] + tail && !head.contains(c),
{
    if s.contains(c) {
        let some = choose|i: int| 0 <= i < s.len() && s[i] == c;
        let at = lemma_first_char(s, c, some);
        lemma_cut(s, c, at);
        assert(s =~= s.take(at) + seq![c] + s.skip(at + 1));
    }
}

proof fn lemma_first_place(s: Seq<char>, part: Seq<char>, some: int) -> (at: int)
    requires
        stands_at(s, part, some),
    ensures
        first_at(s, part, at),
    decreases some,
{
    if exists|j: int| 0 <= j < some && stands_at(s, part, j) {
        let j = choose|j: int| 0 <= j < some && stands_at(s, part, j);
        lemma_first_place(s, part, j)
    } else {
        some
    }
}

/// A text is cut at another exactly when that occurs in it, and then so that the two
/// pieces with it between them are the text; it stands nowhere further to the front.
pub proof fn law_a_text_is_cut_at_another(s: Seq<char>, part: Seq<char>)
    ensures
        cut_at(s, part) is Some <==> exists|at: int|
            0 <= at && at + part.len() <= s.len() && #[trigger] s.subrange(at, at + part.len())
                == part,
        cut_at(s, part) matches Some((head, tail)) ==> s == head + part + tail && forall|at: int|
            0 <= at < head.len() ==> #[trigger] s.subrange(at, at + part.len()) != part || at
                + part.len() > s.len(),
{
    if exists|at: int|
        0 <= at && at + part.len() <= s.len() && #[trigger] s.subrange(at, at + part.len())
            == part {
        let at = choose|at: int|
            0 <= at && at + part.len() <= s.len() && #[trigger] s.subrange(at, at + part.len())
                == part;
        assert(stands_at(s, part, at));
    }
    if occurs_in(part, s) {
        let some = choose|at: int| stands_at(s, part, at);
        assert(s.subrange(some, some + part.len()) == part);
        let first = lemma_first_place(s, part, some);
        let at = choose|at: int| first_at(s, part, at);
        assert(first_at(s, part, at));
        assert(s =~= s.take(at) + s.subrange(at, at + part.len()) + s.skip(at + part.len()));
        assert forall|j: int| 0 <= j < at implies #[trigger] s.subrange(j, j + part.len()) != part
            || j + part.len() > s.len() by {
            assert(!stands_at(s, part, j));
        }
    }
}

/// The number that decimal digits write, from the first digit to the last.
pub open spec fn decimal_value(s: Seq<char>) -> int
    decreases s.len(),
{
    if s.len() == 0 {
        0
    } else {
        10 * decimal_value(s.drop_last()) + (s.last() as int - '0' as int)
    }
}

/// A number in decimal is made of digits, says the number, and has no zero before it
/// unless it is zero itself.
pub proof fn law_decimals_say_their_number(n: nat)
    ensures
        decimal_value(decimal_text(n)) == n,
        forall|i: int|
            0 <= i < decimal_text(n).len() ==> '0' <= (#[trigger] decimal_text(n)[i]) <= '9',
        decimal_text(n).len() > 0,
        n > 0 ==> decimal_text(n)[0] != '0',
        n == 0 ==> decimal_text(n).len() == 1,
    decreases n,
{
    let s = decimal_text(n);
    let d = n % 10;
    assert(0 <= d <= 9);
    assert(digit_char(d) as int == 48 + d);
    if n >= 10 {
        law_decimals_say_their_number(n / 10);
        assert(s.drop_last() =~= decimal_text(n / 10));
        assert forall|i: int| 0 <= i < s.len() implies '0' <= (#[trigger] s[i]) <= '9' by {
            if i < s.len() - 1 {
                assert(s[i] == decimal_text(n / 10)[i]);
            }
        }
    } else {
        assert(s.drop_last() =~= Seq::empty());
        assert(decimal_value(s.drop_last()) == 0);
        assert(s[0] == digit_char(n));
    }
}

/// Of the ASCII characters only the space and those from the tab to the carriage return
/// are white space.
pub proof fn law_white_space(c: char)
    ensures
        (c as u32) < 128 ==> (is_white(c) <==> c == ' ' || '\t' <= c <= '\r'),
        is_white('\n'),
        is_white('\r'),
        'a' <= c <= 'z' || 'A' <= c <= 'Z' || '0' <= c <= '9' ==> !is_white(c),
{
}

/// A text is blank exactly when all of it is white space; so the empty text is, and two
/// texts are together blank exactly when both are.
pub proof fn law_blank_texts(a: Seq<char>, b: Seq<char>)
    ensures
        is_blank(Seq::<char>::empty()),
        is_blank(a + b) <==> is_blank(a) && is_blank(b),
        a.contains('x') ==> !is_blank(a),
{
    if is_blank(a + b) {
        assert forall|i: int| 0 <= i < a.len() implies is_white(#[trigger] a[i]) by {
            assert((a + b)[i] == a[i]);
        }
        assert forall|i: int| 0 <= i < b.len() implies is_white(#[trigger] b[i]) by {
            assert((a + b)[i + a.len()] == b[i]);
        }
    }
    if a.contains('x') {
        let i = choose|i: int| 0 <= i < a.len() && a[i] == 'x';
        assert(!is_white(a[i]));
    }
}

/// Nothing but line ends is dropped from the end of a text, and all of them are.
pub proof fn law_line_ends_are_dropped(s: Seq<char>)
    ensures
        without_line_ends(s).is_prefix_of(s),
        forall|i: int|
            without_line_ends(s).len() <= i < s.len() ==> (#[trigger] s[i]) == '\n' || s[i] == '\r',
        without_line_ends(s).len() > 0 ==> without_line_ends(s).last() != '\n' && without_line_ends(
            s,
        ).last() != '\r',
    decreases s.len(),
{
    if s.len() > 0 && (s.last() == '\n' || s.last() == '\r') {
        law_line_ends_are_dropped(s.drop_last());
        let r = without_line_ends(s);
        assert(r == s.drop_last().take(r.len() as int));
        assert(r =~= s.take(r.len() as int));
        assert forall|i: int| r.len() <= i < s.len() implies (#[trigger] s[i]) == '\n' || s[i]
            == '\r' by {
            if i < s.len() - 1 {
                assert(s[i] == s.drop_last()[i]);
            }
        }
    } else {
        assert(s =~= s.take(s.len() as int));
    }
}

/// Two characters count as the same letter exactly when they are the same or one is the
/// capital of the other among the ASCII letters.
pub proof fn law_letter_case(a: char, b: char)
    ensures
        same_but_case(seq![a], seq![b]) <==> a == b || ('A' <= a <= 'Z' && b as int == a as int
            + 32) || ('A' <= b <= 'Z' && a as int == b as int + 32),
{
    let x = seq![a];
    let y = seq![b];
    assert(x[0] == a && y[0] == b);
    assert(same_but_case(x, y) <==> small(a) == small(b));
    if 'A' <= a <= 'Z' {
        assert(small(a) as int == a as int + 32);
    }
    if 'A' <= b <= 'Z' {
        assert(small(b) as int == b as int + 32);
    }
}

/// A text and its copy in another case are the same as long as each letter is.
pub proof fn law_texts_but_for_case(a: Seq<char>, b: Seq<char>, c: Seq<char>, d: Seq<char>)
    requires
        a.len() == b.len(),
    ensures
        same_but_case(a + c, b + d) <==> same_but_case(a, b) && same_but_case(c, d),
{
    let x = a + c;
    let y = b + d;
    if same_but_case(x, y) {
        assert forall|i: int| 0 <= i < a.len() implies small(#[trigger] a[i]) == small(b[i]) by {
            assert(x[i] == a[i] && y[i] == b[i]);
        }
        assert forall|i: int| 0 <= i < c.len() implies small(#[trigger] c[i]) == small(d[i]) by {
            assert(x[i + a.len()] == c[i] && y[i + a.len()] == d[i]);
        }
    }
    if same_but_case(a, b) && same_but_case(c, d) {
        assert forall|i: int| 0 <= i < x.len() implies small(#[trigger] x[i]) == small(y[i]) by {
            if i < a.len() {
                assert(x[i] == a[i] && y[i] == b[i]);
            } else {
                assert(x[i] == c[i - a.len()] && y[i] == d[i - a.len()]);
            }
        }
    }
}

/// Beyond ASCII, white space are the next-line character, the spaces of Unicode that are
/// wide, narrow or do not break, and its two separators.
pub proof fn law_white_space_beyond_ascii(c: char)
    ensures
        c as int >= 128 ==> (is_white(c) <==> {
            let n = c as int;
            ||| n == 0x85
            ||| n == 0xA0
            ||| n == 0x1680
            ||| (0x1FFF < n && n < 0x200B)
            ||| n == 0x2028
            ||| n == 0x2029
            ||| n == 0x202F
            ||| n == 0x205F
            ||| n == 0x3000
        }),
{
}

} // verus!
