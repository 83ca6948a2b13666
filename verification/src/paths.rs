//! Paths, as texts: their parts, and what the parts say.

use crate::text::{chars_of, piece_of, same_text};
use vstd::prelude::*;

verus! {

/// The position of the first separator at or behind `from`, or the end of the
/// path without one.
pub open spec fn slash_from(s: Seq<char>, from: int) -> int
    decreases s.len() - from,
{
    if from < 0 || from >= s.len() {
        s.len() as int
    } else if s[from] == '/' {
        from
    } else {
        slash_from(s, from + 1)
    }
}

/// The parts of a path from a position on: what stands between separators, but
/// for empty parts and the part that names the directory itself.
pub open spec fn parts_from(s: Seq<char>, from: int) -> Seq<Seq<char>>
    decreases s.len() - from,
{
    let end = slash_from(s, from);
    if !(0 <= from <= end <= s.len()) {
        Seq::empty()
    } else {
        let part = s.subrange(from, end);
        let rest = if end < s.len() {
            parts_from(s, end + 1)
        } else {
            Seq::empty()
        };
        if part.len() == 0 || part == "."@ {
            rest
        } else {
            seq![part] + rest
        }
    }
}

/// The parts of a path.
pub open spec fn path_parts(s: Seq<char>) -> Seq<Seq<char>> {
    parts_from(s, 0)
}

/// The position of the last dot of a name, or -1 without one.
pub open spec fn last_dot(s: Seq<char>) -> int
    decreases s.len(),
{
    if s.len() == 0 {
        -1
    } else if s.last() == '.' {
        s.len() - 1
    } else {
        last_dot(s.drop_last())
    }
}

/// A file name without its extension. A leading dot starts no extension.
pub open spec fn stem_of(name: Seq<char>) -> Seq<char> {
    let dot = last_dot(name);
    if dot <= 0 {
        name
    } else {
        name.take(dot)
    }
}

/// The name under which the lines of a file are listed: the file's name without
/// its extension, or `host` for a path that names no file.
pub open spec fn source_of(path: Seq<char>) -> Seq<char> {
    let parts = path_parts(path);
    if parts.len() == 0 || parts.last() == ".."@ {
        "host"@
    } else {
        stem_of(parts.last())
    }
}

/// A path in memory that does not survive a reboot.
pub open spec fn in_volatile_memory(path: Seq<char>) -> bool {
    let parts = path_parts(path);
    &&& path.len() > 0 && path[0] == '/'
    &&& parts.len() >= 2
    &&& parts[0] == "dev"@
    &&& parts[1] == "shmem"@
}

proof fn lemma_slash(s: Seq<char>, from: int, at: int)
    requires
        0 <= from <= at <= s.len(),
        forall|j: int| from <= j < at ==> s[j] != '/',
        at == s.len() || s[at] == '/',
    ensures
        slash_from(s, from) == at,
    decreases at - from,
{
    if from < at {
        lemma_slash(s, from + 1, at);
    }
}

/// The parts of a path.
pub fn parts(path: &str) -> (r: Vec<String>)
    ensures
        crate::logs::entry::texts(r@) == path_parts(path@),
{
    let cs = chars_of(path);
    let n: usize = cs.len();
    let mut found: Vec<String> = Vec::new();
    let mut from: usize = 0;
    assert(crate::logs::entry::texts(found@) + parts_from(cs@, 0) =~= path_parts(cs@));
    loop
        invariant
            n == cs@.len(),
            from <= n,
            cs@ == path@,
            path_parts(path@) == crate::logs::entry::texts(found@) + parts_from(cs@, from as int),
        decreases n - from,
    {
        let mut end: usize = from;
        while end < n && cs[end] != '/'
            invariant
                n == cs@.len(),
                from <= end <= n,
                forall|j: int| from <= j < end ==> cs@[j] != '/',
            decreases n - end,
        {
            end += 1;
        }
        proof {
            lemma_slash(cs@, from as int, end as int);
        }
        let ghost rest = if end < n {
            parts_from(cs@, end + 1)
        } else {
            Seq::empty()
        };
        let part = piece_of(&cs, from, end);
        let skipped = end == from || same_text(part.as_str(), ".");
        let ghost before = found@;
        if !skipped {
            found.push(part);
            proof {
                assert(crate::logs::entry::texts(found@) =~= crate::logs::entry::texts(before).push(
                    part@,
                ));
                assert(crate::logs::entry::texts(before) + (seq![part@] + rest)
                    =~= crate::logs::entry::texts(found@) + rest);
            }
        }
        if end == n {
            assert(crate::logs::entry::texts(found@) + rest =~= crate::logs::entry::texts(found@));
            return found;
        }
        from = end + 1;
    }
}

fn dot_in(cs: &Vec<char>) -> (r: Option<usize>)
    ensures
        match r {
            Some(i) => last_dot(cs@) == i && i < cs@.len(),
            None => last_dot(cs@) == -1,
        },
{
    let mut i: usize = cs.len();
    assert(cs@.take(i as int) =~= cs@);
    while i > 0
        invariant
            i <= cs@.len(),
            last_dot(cs@) == last_dot(cs@.take(i as int)),
        decreases i,
    {
        assert(cs@.take(i as int).drop_last() =~= cs@.take(i - 1));
        if cs[i - 1] == '.' {
            return Some(i - 1);
        }
        i -= 1;
    }
    None
}

/// The name under which the lines of a file are listed.
pub fn source_name(path: &str) -> (r: String)
    ensures
        r@ == source_of(path@),
{
    let ps = parts(path);
    if ps.len() == 0 {
        return "host".to_owned();
    }
    let name = &ps[ps.len() - 1];
    assert(name@ == path_parts(path@).last());
    if same_text(name.as_str(), "..") {
        return "host".to_owned();
    }
    let cs = chars_of(name.as_str());
    match dot_in(&cs) {
        Some(dot) => if dot > 0 {
            assert(cs@.subrange(0, dot as int) =~= cs@.take(dot as int));
            piece_of(&cs, 0, dot)
        } else {
            name.clone()
        },
        None => name.clone(),
    }
}

/// Whether a path lies in memory that does not survive a reboot.
pub fn is_volatile(path: &str) -> (r: bool)
    ensures
        r == in_volatile_memory(path@),
{
    let cs = chars_of(path);
    if cs.len() == 0 || cs[0] != '/' {
        return false;
    }
    let ps = parts(path);
    if ps.len() < 2 {
        return false;
    }
    assert(ps@[0]@ == path_parts(path@)[0] && ps@[1]@ == path_parts(path@)[1]);
    same_text(ps[0].as_str(), "dev") && same_text(ps[1].as_str(), "shmem")
}

/// A path with another one below it. A path that starts at the root stands for
/// itself.
pub open spec fn joined(base: Seq<char>, below: Seq<char>) -> Seq<char> {
    if below.len() > 0 && below[0] == '/' {
        below
    } else if base.len() == 0 || base.last() == '/' {
        base + below
    } else {
        base + "/"@ + below
    }
}

/// A path with another one below it.
pub fn join_path(base: &str, below: &str) -> (r: String)
    ensures
        r@ == joined(base@, below@),
{
    let b = crate::text::chars_of(below);
    if b.len() > 0 && b[0] == '/' {
        return below.to_owned();
    }
    let a = crate::text::chars_of(base);
    if a.len() == 0 || a[a.len() - 1] == '/' {
        crate::text::cat2(base, below)
    } else {
        crate::text::cat3(base, "/", below)
    }
}

proof fn lemma_slash_stops(s: Seq<char>, from: int)
    requires
        0 <= from <= s.len(),
    ensures
        from <= slash_from(s, from) <= s.len(),
        slash_from(s, from) < s.len() ==> s[slash_from(s, from)] == '/',
        forall|j: int| from <= j < slash_from(s, from) ==> s[j] != '/',
    decreases s.len() - from,
{
    if from < s.len() && s[from] != '/' {
        lemma_slash_stops(s, from + 1);
    }
}

/// The parts of a path hold no separator, are not empty, and do not name the directory
/// itself.
pub proof fn law_parts_are_names(s: Seq<char>, from: int, i: int)
    requires
        0 <= i < parts_from(s, from).len(),
    ensures
        parts_from(s, from)[i].len() > 0,
        parts_from(s, from)[i] != "."@,
        !parts_from(s, from)[i].contains('/'),
    decreases s.len() - from,
{
    let end = slash_from(s, from);
    if 0 <= from <= end <= s.len() {
        lemma_slash_stops(s, from);
        let part = s.subrange(from, end);
        let rest = if end < s.len() {
            parts_from(s, end + 1)
        } else {
            Seq::empty()
        };
        if part.len() == 0 || part == "."@ {
            law_parts_are_names(s, end + 1, i);
        } else if i == 0 {
            assert(parts_from(s, from)[0] == part);
        } else {
            assert(parts_from(s, from)[i] == rest[i - 1]);
            law_parts_are_names(s, end + 1, i - 1);
        }
    }
}

proof fn lemma_parts_of_longer(s: Seq<char>, file: Seq<char>, from: int)
    requires
        0 <= from <= s.len() + 1,
        file.len() > 0,
        file != "."@,
        !file.contains('/'),
    ensures
        parts_from(s + seq!['/'] + file, from) == (if from <= s.len() {
            parts_from(s, from)
        } else {
            Seq::empty()
        }) + seq![file],
    decreases s.len() + 1 - from,
{
    let all = s + seq!['/'] + file;
    lemma_slash_stops(all, from);
    let end = slash_from(all, from);
    assert(all[s.len() as int] == '/');
    if from == s.len() + 1 {
        if end < all.len() {
            assert(all[end] == file[end - from]);
            assert(file.contains('/'));
        }
        assert(all.subrange(from, end) =~= file);
        assert(parts_from(all, from) =~= seq![file]);
        assert(Seq::<Seq<char>>::empty() + seq![file] =~= seq![file]);
    } else {
        assert(end <= s.len());
        lemma_slash_stops(s, from);
        let short = slash_from(s, from);
        assert(short == end) by {
            if end < short {
                assert(all[end] == s[end]);
            }
            if short < end {
                assert(all[short] == s[short]);
            }
        }
        lemma_parts_of_longer(s, file, end + 1);
        let part = all.subrange(from, end);
        assert(part =~= s.subrange(from, end));
        if end == s.len() {
            if part.len() == 0 || part == "."@ {
                assert(parts_from(all, from) =~= parts_from(s, from) + seq![file]);
            } else {
                assert(parts_from(s, from) =~= seq![part]);
                assert(parts_from(all, from) =~= seq![part] + seq![file]);
            }
        } else {
            if part.len() == 0 || part == "."@ {
            } else {
                assert(seq![part] + (parts_from(s, end + 1) + seq![file]) =~= (seq![part]
                    + parts_from(s, end + 1)) + seq![file]);
            }
        }
    }
}

/// A file in a directory has one part more than the directory: its name.
pub proof fn law_the_last_part_is_the_file(dir: Seq<char>, file: Seq<char>)
    requires
        file.len() > 0,
        file != "."@,
        !file.contains('/'),
    ensures
        path_parts(dir + seq!['/'] + file) == path_parts(dir).push(file),
        path_parts(file) == seq![file],
{
    lemma_parts_of_longer(dir, file, 0);
    assert(path_parts(dir) + seq![file] =~= path_parts(dir).push(file));
    let root = Seq::<char>::empty();
    lemma_parts_of_longer(root, file, 0);
    lemma_slash_stops(file, 0);
    let end = slash_from(file, 0);
    if end < file.len() {
        assert(file.contains('/'));
    }
    assert(file.subrange(0, end) =~= file);
    assert(path_parts(file) =~= seq![file]);
}

proof fn lemma_last_dot(s: Seq<char>)
    ensures
        -1 <= last_dot(s) < s.len(),
        last_dot(s) >= 0 ==> s[last_dot(s)] == '.',
        forall|i: int| last_dot(s) < i < s.len() ==> s[i] != '.',
    decreases s.len(),
{
    if s.len() > 0 && s.last() != '.' {
        lemma_last_dot(s.drop_last());
        assert forall|i: int| last_dot(s) < i < s.len() implies s[i] != '.' by {
            if i < s.len() - 1 {
                assert(s[i] == s.drop_last()[i]);
            }
        }
    }
}

/// A file name loses what stands behind its last dot, and the dot; a name without a dot,
/// and one whose only dot leads, stays whole.
pub proof fn law_the_stem_lacks_the_extension(stem: Seq<char>, extension: Seq<char>)
    requires
        !extension.contains('.'),
    ensures
        stem.len() > 0 ==> stem_of(stem + seq!['.'] + extension) == stem,
        stem_of(seq!['.'] + extension) == seq!['.'] + extension,
        stem_of(extension) == extension,
{
    let name = stem + seq!['.'] + extension;
    lemma_last_dot(name);
    let dot = last_dot(name);
    assert(name[stem.len() as int] == '.');
    if dot > stem.len() {
        assert(name[dot] == extension[dot - stem.len() - 1]);
        assert(extension.contains('.'));
    }
    assert(dot == stem.len());
    assert(name.take(dot) =~= stem);
    let hidden = seq!['.'] + extension;
    lemma_last_dot(hidden);
    if last_dot(hidden) > 0 {
        assert(hidden[last_dot(hidden)] == extension[last_dot(hidden) - 1]);
        assert(extension.contains('.'));
    }
    lemma_last_dot(extension);
    if last_dot(extension) >= 0 {
        assert(extension.contains(extension[last_dot(extension)]));
    }
}

/// The lines of a file in a directory are listed under the name of the file without its
/// extension, wherever the directory lies.
pub proof fn law_a_source_is_named_by_its_file(
    dir: Seq<char>,
    stem: Seq<char>,
    extension: Seq<char>,
)
    requires
        stem.len() > 0,
        !stem.contains('/'),
        !extension.contains('/'),
        !extension.contains('.'),
        stem != "."@ || extension.len() > 0,
    ensures
        source_of(dir + seq!['/'] + (stem + seq!['.'] + extension)) == stem,
{
    let file = stem + seq!['.'] + extension;
    reveal_strlit(".");
    reveal_strlit("..");
    assert(file.len() >= 2);
    assert(file != "."@);
    assert(!file.contains('/')) by {
        if file.contains('/') {
            let i = choose|i: int| 0 <= i < file.len() && file[i] == '/';
            if i < stem.len() {
                assert(stem[i] == '/');
                assert(stem.contains('/'));
            } else if i > stem.len() {
                assert(extension[i - stem.len() - 1] == '/');
                assert(extension.contains('/'));
            }
        }
    }
    assert(file != ".."@) by {
        if file == ".."@ {
            assert(stem.len() + 1 + extension.len() == 2);
            if extension.len() == 0 {
                assert(stem[0] == file[0]);
                assert(stem =~= "."@);
            } else {
                assert(file[1] == '.');
            }
        }
    }
    law_the_last_part_is_the_file(dir, file);
    law_the_stem_lacks_the_extension(stem, extension);
}

proof fn lemma_first_part(s: Seq<char>, from: int, part: Seq<char>, rest: Seq<char>)
    requires
        from == 0 || from == 1,
        s == (if from == 0 {
            Seq::<char>::empty()
        } else {
            seq!['/']
        }) + part + seq!['/'] + rest,
        part.len() > 0,
        part != "."@,
        !part.contains('/'),
    ensures
        parts_from(s, from) == seq![part] + parts_from(s, from + part.len() + 1),
{
    let end = from + part.len();
    assert forall|j: int| from <= j < end implies s[j] != '/' by {
        assert(s[j] == part[j - from]);
        assert(part.contains(part[j - from]));
    }
    assert(s[end] == '/');
    lemma_slash(s, from, end);
    assert(s.subrange(from, end) =~= part);
}

/// A path from the root through two directories lies in volatile memory exactly when
/// they are `dev` and `shmem`; one that does not start at the root never does.
pub proof fn law_volatile_memory_is_shared_memory(
    first: Seq<char>,
    second: Seq<char>,
    rest: Seq<char>,
    relative: Seq<char>,
)
    requires
        first.len() > 0 && first != "."@ && !first.contains('/'),
        second.len() > 0 && second != "."@ && !second.contains('/'),
        relative.len() == 0 || relative[0] != '/',
    ensures
        in_volatile_memory(seq!['/'] + first + seq!['/'] + (second + seq!['/'] + rest)) <==> first
            == "dev"@ && second == "shmem"@,
        !in_volatile_memory(relative),
{
    let below = second + seq!['/'] + rest;
    let s = seq!['/'] + first + seq!['/'] + below;
    assert(s[0] == '/');
    lemma_slash(s, 0, 0);
    assert(s.subrange(0, 0).len() == 0);
    assert(path_parts(s) == parts_from(s, 1));
    lemma_first_part(s, 1, first, below);
    let at = first.len() as int + 2;
    let end = at + second.len();
    assert forall|j: int| at <= j < end implies s[j] != '/' by {
        assert(s[j] == below[j - at]);
        assert(below[j - at] == second[j - at]);
        assert(second.contains(second[j - at]));
    }
    assert(s[end] == below[second.len() as int]);
    lemma_slash(s, at, end);
    assert(s.subrange(at, end) =~= second);
    let more = parts_from(s, end + 1);
    assert(parts_from(s, at) == seq![second] + more);
    assert(path_parts(s) =~= seq![first, second] + more);
    assert(path_parts(s)[0] == first && path_parts(s)[1] == second);
}

/// A path below another goes through it, with one separator between them; a path from
/// the root stands for itself.
pub proof fn law_paths_are_joined(base: Seq<char>, below: Seq<char>)
    ensures
        below.len() > 0 && below[0] == '/' ==> joined(base, below) == below,
        (below.len() == 0 || below[0] != '/') && base.len() > 0 && base.last() != '/' ==> joined(
            base,
            below,
        ) == base + seq!['/'] + below,
        (below.len() == 0 || below[0] != '/') && (base.len() == 0 || base.last() == '/') ==> joined(
            base,
            below,
        ) == base + below,
{
    reveal_strlit("/");
    assert("/"@ =~= seq!['/']);
}

/// A path that names no file, because it has no parts or leads up in the end, has its
/// lines listed under `host`.
pub proof fn law_a_path_without_a_file_is_the_hosts(dir: Seq<char>, path: Seq<char>)
    ensures
        path_parts(path).len() == 0 ==> source_of(path) == "host"@,
        source_of(dir + seq!['/'] + ".."@) == "host"@,
        source_of(".."@) == "host"@,
        source_of(Seq::<char>::empty()) == "host"@,
{
    reveal_strlit(".");
    reveal_strlit("..");
    assert(".."@.len() == 2 && "."@.len() == 1);
    assert(!".."@.contains('/')) by {
        if ".."@.contains('/') {
            let i = choose|i: int| 0 <= i < ".."@.len() && ".."@[i] == '/';
            assert(".."@[i] == '.');
        }
    }
    law_the_last_part_is_the_file(dir, ".."@);
    let none = Seq::<char>::empty();
    assert(none.subrange(0, 0).len() == 0);
    assert(path_parts(none) =~= Seq::empty());
}

} // verus!
