//! Which host files a component's patterns name, and the count of boots.

use crate::text::{begins_with, chars_of, cut, finishes_with, split_once};
use vstd::prelude::*;

verus! {

/// What a pattern names: one file, or the files of a directory whose name begins
/// and ends in a certain way.
#[derive(Debug, Clone)]
pub enum LogGlob {
    File { path: String },
    Directory { dir: String, prefix: String, suffix: String },
}

/// The last separator of a path, or -1 without one.
pub open spec fn last_slash(s: Seq<char>) -> int
    decreases s.len(),
{
    if s.len() == 0 {
        -1
    } else if s.last() == '/' {
        s.len() - 1
    } else {
        last_slash(s.drop_last())
    }
}

/// A path without separators, and without dots for the directory itself, at its end.
pub open spec fn without_tail(s: Seq<char>) -> Seq<char>
    decreases s.len(),
{
    if s.len() > 1 && (s.last() == '/' || s.last() == '.' && s[s.len() - 2] == '/') {
        without_tail(s.drop_last())
    } else {
        s
    }
}

/// The name that a pattern ends in.
pub open spec fn glob_name(pattern: Seq<char>) -> Seq<char> {
    let p = without_tail(pattern);
    p.skip(last_slash(p) + 1)
}

/// The directory that a pattern looks into.
pub open spec fn glob_dir(pattern: Seq<char>) -> Seq<char> {
    let p = without_tail(pattern);
    if last_slash(p) <= 0 {
        p.take(last_slash(p) + 1)
    } else {
        without_tail(p.take(last_slash(p)))
    }
}

/// How long a path is without its tail.
fn length_without_tail(cs: &Vec<char>, n: usize) -> (r: usize)
    requires
        n <= cs@.len(),
    ensures
        r <= n,
        cs@.take(r as int) == without_tail(cs@.take(n as int)),
{
    let mut r: usize = n;
    while r > 1 && (cs[r - 1] == '/' || cs[r - 1] == '.' && cs[r - 2] == '/')
        invariant
            r <= n <= cs@.len(),
            without_tail(cs@.take(r as int)) == without_tail(cs@.take(n as int)),
        decreases r,
    {
        assert(cs@.take(r as int).drop_last() =~= cs@.take(r - 1));
        r -= 1;
    }
    r
}

fn slash_in(cs: &Vec<char>) -> (r: Option<usize>)
    ensures
        match r {
            Some(i) => last_slash(cs@) == i && i < cs@.len(),
            None => last_slash(cs@) == -1,
        },
{
    let mut i: usize = cs.len();
    assert(cs@.take(i as int) =~= cs@);
    while i > 0
        invariant
            i <= cs@.len(),
            last_slash(cs@) == last_slash(cs@.take(i as int)),
        decreases i,
    {
        assert(cs@.take(i as int).drop_last() =~= cs@.take(i - 1));
        if cs[i - 1] == '/' {
            return Some(i - 1);
        }
        i -= 1;
    }
    None
}

/// What a pattern is read as.
pub open spec fn glob_read(pattern: Seq<char>, r: LogGlob) -> bool {
    match r {
        LogGlob::File { path } => path@ == pattern && !glob_name(pattern).contains('*'),
        LogGlob::Directory { dir, prefix, suffix } => dir@ == glob_dir(pattern) && cut(
            glob_name(pattern),
            '*',
        ) == Some((prefix@, suffix@)),
    }
}

/// A name begins and ends as it has to.
pub open spec fn glob_fits(name: Seq<char>, prefix: Seq<char>, suffix: Seq<char>) -> bool {
    prefix.is_prefix_of(name) && suffix.is_suffix_of(name)
}

/// Reads a pattern. One star is understood, in the name at the end; a pattern
/// without it names the file itself.
pub fn parse_glob(pattern: &str) -> (r: LogGlob)
    ensures
        glob_read(pattern@, r),
{
    let all = chars_of(pattern);
    assert(all@.take(all@.len() as int) =~= all@);
    let n: usize = length_without_tail(&all, all.len());
    let cs = chars_of(crate::text::piece_of(&all, 0, n).as_str());
    assert(cs@ =~= without_tail(pattern@));
    let (name_from, dir_to): (usize, usize) = match slash_in(&cs) {
        Some(i) => (i + 1, if i == 0 {
            1
        } else {
            length_without_tail(&cs, i)
        }),
        None => (0, 0),
    };
    let name = crate::text::piece_of(&cs, name_from, cs.len());
    assert(name@ =~= glob_name(pattern@));
    match split_once(name.as_str(), '*') {
        Some((prefix, suffix)) => {
            let dir = crate::text::piece_of(&cs, 0, dir_to);
            assert(dir@ =~= glob_dir(pattern@));
            LogGlob::Directory { dir, prefix, suffix }
        },
        None => LogGlob::File { path: pattern.to_owned() },
    }
}

/// Whether a file of the directory is one that the pattern names.
pub fn glob_matches(name: &str, prefix: &str, suffix: &str) -> (r: bool)
    ensures
        r == glob_fits(name@, prefix@, suffix@),
{
    begins_with(name, prefix) && finishes_with(name, suffix)
}

// ---------------------------------------------------------------------------
// The count of boots
// ---------------------------------------------------------------------------

/// A decimal digit.
pub open spec fn is_digit(c: char) -> bool {
    '0' <= c <= '9'
}

/// The number that decimal digits write.
pub open spec fn digits_value(s: Seq<char>) -> nat
    decreases s.len(),
{
    if s.len() == 0 {
        0
    } else {
        digits_value(s.drop_last()) * 10 + (s.last() as u32 - 48) as nat
    }
}

/// A text without the white space around it.
pub open spec fn trimmed(s: Seq<char>) -> Seq<char>
    decreases s.len(),
{
    if s.len() > 0 && crate::text::is_white(s[0]) {
        trimmed(s.skip(1))
    } else if s.len() > 0 && crate::text::is_white(s.last()) {
        trimmed(s.drop_last())
    } else {
        s
    }
}

/// The digits of a number that may have a plus sign before it.
pub open spec fn unsigned_digits(s: Seq<char>) -> Seq<char> {
    if s.len() > 0 && s[0] == '+' {
        s.skip(1)
    } else {
        s
    }
}

/// The number that a text writes, if it writes one that fits.
pub open spec fn number_in(s: Seq<char>) -> Option<u64> {
    let digits = unsigned_digits(s);
    if digits.len() > 0 && (forall|i: int| 0 <= i < digits.len() ==> is_digit(#[trigger] digits[i]))
        && digits_value(digits) <= u64::MAX {
        Some(digits_value(digits) as u64)
    } else {
        None
    }
}

proof fn lemma_digits_grow(s: Seq<char>, n: int)
    requires
        0 <= n <= s.len(),
        forall|i: int| 0 <= i < s.len() ==> is_digit(#[trigger] s[i]),
    ensures
        digits_value(s.take(n)) <= digits_value(s),
    decreases s.len(),
{
    if n == s.len() {
        assert(s.take(n) =~= s);
    } else {
        let shorter = s.drop_last();
        assert forall|i: int| 0 <= i < shorter.len() implies is_digit(#[trigger] shorter[i]) by {
            assert(is_digit(s[i]));
        }
        lemma_digits_grow(shorter, n);
        assert(shorter.take(n) =~= s.take(n));
        assert(is_digit(s[s.len() - 1]));
    }
}

fn parse_number(cs: &Vec<char>) -> (r: Option<u64>)
    ensures
        r == number_in(cs@),
{
    let mut i: usize = 0;
    if cs.len() > 0 && cs[0] == '+' {
        i = 1;
    }
    let ghost from = i as int;
    let ghost digits = unsigned_digits(cs@);
    assert(digits =~= cs@.skip(from));
    if i == cs.len() {
        return None;
    }
    let mut value: u64 = 0;
    assert(digits.take(0) =~= Seq::empty());
    while i < cs.len()
        invariant
            0 <= from <= i <= cs@.len(),
            digits == cs@.skip(from),
            digits == unsigned_digits(cs@),
            forall|j: int| 0 <= j < i - from ==> is_digit(#[trigger] digits[j]),
            value == digits_value(digits.take(i - from)),
        decreases cs@.len() - i,
    {
        let c = cs[i];
        assert(digits[i - from] == c);
        if !('0' <= c && c <= '9') {
            assert(!is_digit(digits[i - from]));
            return None;
        }
        let d: u64 = (c as u32 - 48) as u64;
        let ghost upto = digits.take(i - from + 1);
        assert(upto.drop_last() =~= digits.take(i - from));
        assert(upto.last() == c);
        if value > (u64::MAX - d) / 10 {
            proof {
                assert(digits_value(upto) > u64::MAX);
                if forall|j: int| 0 <= j < digits.len() ==> is_digit(#[trigger] digits[j]) {
                    lemma_digits_grow(digits, i - from + 1);
                }
            }
            return None;
        }
        value = value * 10 + d;
        i += 1;
    }
    assert(digits.take(i - from) =~= digits);
    Some(value)
}

fn trim(cs: &Vec<char>) -> (r: Vec<char>)
    ensures
        r@ == trimmed(cs@),
{
    let mut from: usize = 0;
    let mut to: usize = cs.len();
    assert(cs@.subrange(0, cs@.len() as int) =~= cs@);
    while from < to && crate::text::white(cs[from])
        invariant
            from <= to <= cs@.len(),
            trimmed(cs@) == trimmed(cs@.subrange(from as int, to as int)),
        decreases to - from,
    {
        assert(cs@.subrange(from as int, to as int).skip(1) =~= cs@.subrange(
            from + 1,
            to as int,
        ));
        from += 1;
    }
    while from < to && crate::text::white(cs[to - 1])
        invariant
            from <= to <= cs@.len(),
            trimmed(cs@) == trimmed(cs@.subrange(from as int, to as int)),
            from < to ==> !crate::text::is_white(cs@[from as int]),
        decreases to - from,
    {
        assert(cs@.subrange(from as int, to as int).drop_last() =~= cs@.subrange(
            from as int,
            to - 1,
        ));
        to -= 1;
    }
    let piece = crate::text::piece_of(cs, from, to);
    chars_of(piece.as_str())
}

/// The count of boots that a file kept: 0 where there was no file, or where it
/// holds no number.
pub open spec fn kept_epoch(kept: Option<String>) -> u64 {
    match kept {
        Some(s) => match number_in(trimmed(s@)) {
            Some(n) => n,
            None => 0,
        },
        None => 0,
    }
}

/// The count of the boot after the one that a file kept.
pub open spec fn epoch_after(kept: Option<String>) -> u64 {
    if kept_epoch(kept) < u64::MAX {
        (kept_epoch(kept) + 1) as u64
    } else {
        u64::MAX
    }
}

/// The count of this boot: one more than the file kept. Losing the count does no
/// harm but to read volatile files from their start again.
pub fn next_boot_epoch(kept: &Option<String>) -> (n: u64)
    ensures
        n == epoch_after(*kept),
{
    let before: u64 = match kept {
        Some(s) => {
            let cs = trim(&chars_of(s.as_str()));
            match parse_number(&cs) {
                Some(n) => n,
                None => 0,
            }
        },
        None => 0,
    };
    before.saturating_add(1)
}

proof fn lemma_decimal_digits(n: nat)
    ensures
        decimal_ok(n),
    decreases n,
{
    let s = crate::text::decimal_text(n);
    let last = n % 10;
    assert(crate::text::digit_char(last) as u32 == 48 + last);
    assert(is_digit(crate::text::digit_char(last)));
    if n >= 10 {
        lemma_decimal_digits(n / 10);
        let shorter = crate::text::decimal_text(n / 10);
        assert(s.drop_last() =~= shorter);
        assert forall|i: int| 0 <= i < s.len() implies is_digit(#[trigger] s[i]) by {
            if i < shorter.len() {
                assert(s[i] == shorter[i]);
                assert(is_digit(shorter[i]));
            }
        }
    } else {
        assert(s.drop_last() =~= Seq::empty());
        assert(digits_value(s.drop_last()) == 0);
    }
}

/// A number in decimal reads back as the number.
spec fn decimal_ok(n: nat) -> bool {
    let s = crate::text::decimal_text(n);
    &&& s.len() > 0
    &&& forall|i: int| 0 <= i < s.len() ==> is_digit(#[trigger] s[i])
    &&& digits_value(s) == n
}

/// A count that was kept is read back: every boot counts one further.
pub proof fn law_boots_count_up(kept: String, n: u64)
    requires
        kept@ == crate::text::decimal_text(n as nat),
    ensures
        kept_epoch(Some(kept)) == n,
{
    lemma_decimal_digits(n as nat);
    let s = crate::text::decimal_text(n as nat);
    assert(is_digit(s[0]));
    assert(is_digit(s[s.len() - 1]));
    assert(trimmed(s) == s);
    assert(unsigned_digits(s) == s);
}

proof fn lemma_last_slash(s: Seq<char>)
    ensures
        -1 <= last_slash(s) < s.len(),
        last_slash(s) >= 0 ==> s[last_slash(s)] == '/',
        forall|i: int| last_slash(s) < i < s.len() ==> s[i] != '/',
    decreases s.len(),
{
    if s.len() > 0 && s.last() != '/' {
        lemma_last_slash(s.drop_last());
        assert forall|i: int| last_slash(s) < i < s.len() implies s[i] != '/' by {
            if i < s.len() - 1 {
                assert(s[i] == s.drop_last()[i]);
            }
        }
    }
}

/// A pattern with a star in its last part looks into the directory before that part, for
/// names that begin and end as the star's surroundings say.
pub proof fn law_a_star_stands_for_any_middle(
    dir: Seq<char>,
    prefix: Seq<char>,
    suffix: Seq<char>,
    middle: Seq<char>,
    r: LogGlob,
)
    requires
        dir.len() > 0,
        dir.last() != '/',
        !(dir.len() > 1 && dir.last() == '.' && dir[dir.len() - 2] == '/'),
        !prefix.contains('/') && !prefix.contains('*'),
        !suffix.contains('/'),
        glob_read(dir + seq!['/'] + (prefix + seq!['*'] + suffix), r),
    ensures
        r matches LogGlob::Directory { dir: d, prefix: p, suffix: s } && d@ == dir && p@ == prefix
            && s@ == suffix,
        glob_fits(prefix + middle + suffix, prefix, suffix),
{
    let name = prefix + seq!['*'] + suffix;
    let pattern = dir + seq!['/'] + name;
    let n = pattern.len() as int;
    let k = dir.len() as int;
    assert(!name.contains('/')) by {
        if name.contains('/') {
            let i = choose|i: int| 0 <= i < name.len() && name[i] == '/';
            if i < prefix.len() {
                assert(prefix[i] == '/');
                assert(prefix.contains('/'));
            } else if i > prefix.len() {
                assert(suffix[i - prefix.len() - 1] == '/');
                assert(suffix.contains('/'));
            }
        }
    }
    assert(pattern.last() == name.last());
    assert(name.contains(name.last())) by {
        assert(name[name.len() - 1] == name.last());
    }
    assert(without_tail(pattern) == pattern) by {
        if pattern.last() == '.' && pattern[n - 2] == '/' {
            if name.len() == 1 {
                assert(name[0] == '*');
            } else {
                assert(pattern[n - 2] == name[name.len() - 2]);
                assert(name.contains('/'));
            }
        }
    }
    lemma_last_slash(pattern);
    let at = last_slash(pattern);
    assert(pattern[k] == '/');
    assert(at == k) by {
        if at > k {
            assert(pattern[at] == name[at - k - 1]);
            assert(name.contains('/'));
        }
    }
    assert(pattern.skip(k + 1) =~= name);
    assert(pattern.take(k) =~= dir);
    assert(without_tail(dir) == dir);
    assert(glob_dir(pattern) == dir);
    assert(crate::text::first_char_at(name, '*', prefix.len() as int)) by {
        assert(name[prefix.len() as int] == '*');
        assert(name.take(prefix.len() as int) =~= prefix);
    }
    crate::text::lemma_cut(name, '*', prefix.len() as int);
    assert(name.take(prefix.len() as int) =~= prefix);
    assert(name.skip(prefix.len() as int + 1) =~= suffix);
    assert(name.contains('*')) by {
        assert(name[prefix.len() as int] == '*');
    }
    let found = prefix + middle + suffix;
    assert(found.take(prefix.len() as int) =~= prefix);
    assert(found.subrange(found.len() - suffix.len(), found.len() as int) =~= suffix);
}

/// A pattern without a star names the file itself.
pub proof fn law_a_pattern_without_a_star_is_a_file(pattern: Seq<char>, r: LogGlob)
    requires
        !pattern.contains('*'),
        glob_read(pattern, r),
    ensures
        r matches LogGlob::File { path } && path@ == pattern,
{
    lemma_without_tail(pattern);
    let p = without_tail(pattern);
    lemma_last_slash(p);
    let name = glob_name(pattern);
    if name.contains('*') {
        let i = choose|i: int| 0 <= i < name.len() && name[i] == '*';
        assert(name[i] == p[i + last_slash(p) + 1]);
        assert(p[i + last_slash(p) + 1] == pattern[i + last_slash(p) + 1]);
        assert(pattern.contains('*'));
    }
    crate::text::law_a_text_is_cut_at_the_first_place(name, '*');
}

proof fn lemma_without_tail(s: Seq<char>)
    ensures
        without_tail(s).is_prefix_of(s),
    decreases s.len(),
{
    if s.len() > 1 && (s.last() == '/' || s.last() == '.' && s[s.len() - 2] == '/') {
        lemma_without_tail(s.drop_last());
        let r = without_tail(s);
        assert(r == s.drop_last().take(r.len() as int));
        assert(r =~= s.take(r.len() as int));
    } else {
        assert(s =~= s.take(s.len() as int));
    }
}

/// A name fits exactly when it begins with what stands before the star and ends with
/// what stands behind it.
pub proof fn law_names_that_fit(name: Seq<char>, prefix: Seq<char>, suffix: Seq<char>)
    ensures
        glob_fits(name, prefix, suffix) <==> {
            &&& prefix.len() <= name.len() && forall|i: int|
                0 <= i < prefix.len() ==> prefix[i] == name[i]
            &&& suffix.len() <= name.len() && forall|i: int|
                0 <= i < suffix.len() ==> suffix[i] == name[i + name.len() - suffix.len()]
        },
{
    if glob_fits(name, prefix, suffix) {
        assert forall|i: int| 0 <= i < prefix.len() implies prefix[i] == name[i] by {
            assert(name.take(prefix.len() as int)[i] == name[i]);
        }
        assert forall|i: int| 0 <= i < suffix.len() implies suffix[i] == name[i + name.len()
            - suffix.len()] by {
            assert(name.subrange(name.len() - suffix.len(), name.len() as int)[i] == name[i
                + name.len() - suffix.len()]);
        }
    }
    if prefix.len() <= name.len() && forall|i: int| 0 <= i < prefix.len() ==> prefix[i] == name[i] {
        assert(name.take(prefix.len() as int) =~= prefix);
    }
    if suffix.len() <= name.len() && forall|i: int|
        0 <= i < suffix.len() ==> suffix[i] == name[i + name.len() - suffix.len()] {
        assert(name.subrange(name.len() - suffix.len(), name.len() as int) =~= suffix);
    }
}

/// Every boot counts one further than the one whose count was kept, up to the largest
/// number there is; without a count, and with one that cannot be read, counting starts
/// over at one.
pub proof fn law_the_next_boot_is_one_further(kept: String, n: u64, garbage: String)
    requires
        kept@ == crate::text::decimal_text(n as nat),
        garbage@.contains('x'),
    ensures
        n < u64::MAX ==> epoch_after(Some(kept)) == n + 1,
        n == u64::MAX ==> epoch_after(Some(kept)) == u64::MAX,
        epoch_after(None) == 1,
        epoch_after(Some(garbage)) == 1,
{
    law_boots_count_up(kept, n);
    lemma_trimmed_keeps(garbage@, 'x');
    let t = trimmed(garbage@);
    let digits = unsigned_digits(t);
    let i = choose|i: int| 0 <= i < t.len() && t[i] == 'x';
    if t[0] == '+' {
        assert(digits[i - 1] == 'x');
        assert(!is_digit(digits[i - 1]));
    } else {
        assert(!is_digit(digits[i]));
    }
}

proof fn lemma_trimmed_keeps(s: Seq<char>, c: char)
    requires
        s.contains(c),
        !crate::text::is_white(c),
    ensures
        trimmed(s).contains(c),
    decreases s.len(),
{
    let i = choose|i: int| 0 <= i < s.len() && s[i] == c;
    if s.len() > 0 && crate::text::is_white(s[0]) {
        assert(s.skip(1)[i - 1] == c);
        lemma_trimmed_keeps(s.skip(1), c);
    } else if s.len() > 0 && crate::text::is_white(s.last()) {
        assert(s.drop_last()[i] == c);
        lemma_trimmed_keeps(s.drop_last(), c);
    }
}

/// A text without its first `from` and its last `behind` characters.
pub open spec fn inner(s: Seq<char>, from: nat, behind: nat) -> Seq<char> {
    s.subrange(from as int, s.len() - behind)
}

/// The first `from` and the last `behind` characters of a text are white space.
pub open spec fn white_around(s: Seq<char>, from: nat, behind: nat) -> bool {
    &&& from + behind <= s.len()
    &&& forall|i: int| 0 <= i < from ==> crate::text::is_white(#[trigger] s[i])
    &&& forall|i: int| s.len() - behind <= i < s.len() ==> crate::text::is_white(#[trigger] s[i])
}

proof fn lemma_trimmed(s: Seq<char>) -> (r: (nat, nat))
    ensures
        white_around(s, r.0, r.1),
        trimmed(s) == inner(s, r.0, r.1),
    decreases s.len(),
{
    if s.len() > 0 && crate::text::is_white(s[0]) {
        let rest = s.skip(1);
        let (from, behind) = lemma_trimmed(rest);
        assert(inner(s, from + 1, behind) =~= inner(rest, from, behind));
        assert forall|i: int| 0 <= i < from + 1 implies crate::text::is_white(#[trigger] s[i]) by {
            if i > 0 {
                assert(rest[i - 1] == s[i]);
            }
        }
        assert forall|i: int| s.len() - behind <= i < s.len() implies crate::text::is_white(
            #[trigger] s[i],
        ) by {
            assert(rest[i - 1] == s[i]);
        }
        (from + 1, behind)
    } else if s.len() > 0 && crate::text::is_white(s.last()) {
        let rest = s.drop_last();
        let (from, behind) = lemma_trimmed(rest);
        assert(inner(s, from, behind + 1) =~= inner(rest, from, behind));
        assert forall|i: int| 0 <= i < from implies crate::text::is_white(#[trigger] s[i]) by {
            assert(rest[i] == s[i]);
        }
        assert forall|i: int| s.len() - behind - 1 <= i < s.len() implies crate::text::is_white(
            #[trigger] s[i],
        ) by {
            if i < s.len() - 1 {
                assert(rest[i] == s[i]);
            }
        }
        (from, behind + 1)
    } else {
        assert(inner(s, 0, 0) =~= s);
        (0, 0)
    }
}

/// Trimming takes all white space off both ends, and nothing else.
pub proof fn law_trimming_takes_off_white_space(s: Seq<char>)
    ensures
        trimmed(s).len() > 0 ==> !crate::text::is_white(trimmed(s)[0]) && !crate::text::is_white(
            trimmed(s).last(),
        ),
        exists|from: nat, behind: nat|
            white_around(s, from, behind) && trimmed(s) == #[trigger] inner(s, from, behind),
{
    let (from, behind) = lemma_trimmed(s);
    assert(trimmed(s) == inner(s, from, behind));
    lemma_trimmed_ends(s);
}

proof fn lemma_trimmed_ends(s: Seq<char>)
    ensures
        trimmed(s).len() > 0 ==> !crate::text::is_white(trimmed(s)[0]) && !crate::text::is_white(
            trimmed(s).last(),
        ),
    decreases s.len(),
{
    if s.len() > 0 && crate::text::is_white(s[0]) {
        lemma_trimmed_ends(s.skip(1));
    } else if s.len() > 0 && crate::text::is_white(s.last()) {
        lemma_trimmed_ends(s.drop_last());
    }
}

} // verus!
