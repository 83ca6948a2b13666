//! The order in which host files are read.

use crate::logs::entry::texts;
use crate::paths::{parts, path_parts};
use crate::text::{chars_of, same_text};
use vstd::prelude::*;

verus! {

/// On which side of another something stands.
#[derive(Debug, Clone, Copy, PartialEq, Eq, Structural)]
pub enum Side {
    Before,
    Same,
    Behind,
}

/// A text comes before another: it is a beginning of it, or has the smaller character
/// at the first place where they differ.
pub open spec fn text_before(a: Seq<char>, b: Seq<char>) -> bool {
    exists|k: int| #[trigger] texts_part_at(a, b, k)
}

/// Two texts part at a place, and the first one is the smaller there.
pub open spec fn texts_part_at(a: Seq<char>, b: Seq<char>, k: int) -> bool {
    &&& 0 <= k <= a.len()
    &&& k < b.len()
    &&& a.take(k) == b.take(k)
    &&& k == a.len() || a[k] < b[k]
}

/// The class of a part of a path: the root comes before the directory itself, that
/// before the one above, and that before every name.
pub open spec fn part_class(part: Seq<char>) -> nat {
    if part == "/"@ {
        0
    } else if part == "."@ {
        1
    } else if part == ".."@ {
        2
    } else {
        3
    }
}

/// A part of a path comes before another.
pub open spec fn part_before(a: Seq<char>, b: Seq<char>) -> bool {
    part_class(a) < part_class(b) || (part_class(a) == part_class(b) && text_before(a, b))
}

/// All that a path goes through: the root or the directory itself where it begins
/// there, and its parts.
pub open spec fn path_route(path: Seq<char>) -> Seq<Seq<char>> {
    if path.len() > 0 && path[0] == '/' {
        seq!["/"@] + path_parts(path)
    } else if path.len() > 0 && path[0] == '.' && (path.len() == 1 || path[1] == '/') {
        seq!["."@] + path_parts(path)
    } else {
        path_parts(path)
    }
}

/// A route comes before another: it is a beginning of it, or has the earlier part at
/// the first place where they differ.
pub open spec fn route_before(a: Seq<Seq<char>>, b: Seq<Seq<char>>) -> bool {
    exists|k: int| #[trigger] routes_part_at(a, b, k)
}

/// Two routes part at a place, and the first one is the earlier there.
pub open spec fn routes_part_at(a: Seq<Seq<char>>, b: Seq<Seq<char>>, k: int) -> bool {
    &&& 0 <= k <= a.len()
    &&& k < b.len()
    &&& a.take(k) == b.take(k)
    &&& k == a.len() || part_before(a[k], b[k])
}

fn text_side(a: &str, b: &str) -> (r: Side)
    ensures
        r is Before ==> text_before(a@, b@),
        r is Same ==> a@ == b@,
        r is Behind ==> text_before(b@, a@),
{
    let x = chars_of(a);
    let y = chars_of(b);
    let mut k: usize = 0;
    while k < x.len() && k < y.len() && x[k] == y[k]
        invariant
            x@ == a@,
            y@ == b@,
            k <= x@.len(),
            k <= y@.len(),
            x@.take(k as int) == y@.take(k as int),
        decreases x@.len() - k,
    {
        assert(x@.take(k + 1) =~= x@.take(k as int).push(x@[k as int]));
        assert(y@.take(k + 1) =~= y@.take(k as int).push(y@[k as int]));
        k += 1;
    }
    if k == x.len() && k == y.len() {
        assert(x@.take(k as int) =~= x@);
        assert(y@.take(k as int) =~= y@);
        Side::Same
    } else if k == x.len() || (k < y.len() && x[k] < y[k]) {
        assert(texts_part_at(a@, b@, k as int));
        Side::Before
    } else {
        assert(texts_part_at(b@, a@, k as int));
        Side::Behind
    }
}

fn class_of(part: &str) -> (r: u8)
    ensures
        r == part_class(part@),
{
    if same_text(part, "/") {
        0
    } else if same_text(part, ".") {
        1
    } else if same_text(part, "..") {
        2
    } else {
        3
    }
}

fn part_side(a: &str, b: &str) -> (r: Side)
    ensures
        r is Before ==> part_before(a@, b@),
        r is Same ==> a@ == b@,
        r is Behind ==> part_before(b@, a@),
{
    let x: u8 = class_of(a);
    let y: u8 = class_of(b);
    if x < y {
        Side::Before
    } else if y < x {
        Side::Behind
    } else {
        text_side(a, b)
    }
}

fn route_side(a: &Vec<String>, b: &Vec<String>) -> (r: Side)
    ensures
        r is Before ==> route_before(texts(a@), texts(b@)),
        r is Same ==> texts(a@) == texts(b@),
        r is Behind ==> route_before(texts(b@), texts(a@)),
{
    let ghost x = texts(a@);
    let ghost y = texts(b@);
    let mut k: usize = 0;
    while k < a.len() && k < b.len()
        invariant
            x == texts(a@),
            y == texts(b@),
            k <= a@.len(),
            k <= b@.len(),
            x.take(k as int) == y.take(k as int),
        decreases a@.len() - k,
    {
        match part_side(a[k].as_str(), b[k].as_str()) {
            Side::Before => {
                assert(routes_part_at(x, y, k as int));
                return Side::Before;
            },
            Side::Behind => {
                assert(routes_part_at(y, x, k as int));
                return Side::Behind;
            },
            Side::Same => {},
        }
        assert(x.take(k + 1) =~= x.take(k as int).push(x[k as int]));
        assert(y.take(k + 1) =~= y.take(k as int).push(y[k as int]));
        k += 1;
    }
    if k < b.len() {
        assert(routes_part_at(x, y, k as int));
        Side::Before
    } else if k < a.len() {
        assert(routes_part_at(y, x, k as int));
        Side::Behind
    } else {
        assert(x.take(k as int) =~= x);
        assert(y.take(k as int) =~= y);
        Side::Same
    }
}

proof fn lemma_text_before_chains(a: Seq<char>, b: Seq<char>, c: Seq<char>)
    requires
        text_before(a, b),
        text_before(b, c),
    ensures
        text_before(a, c),
{
    let i = choose|i: int| #[trigger] texts_part_at(a, b, i);
    let j = choose|j: int| #[trigger] texts_part_at(b, c, j);
    let k = if i < j {
        i
    } else {
        j
    };
    assert(a.take(k) =~= a.take(i).take(k));
    assert(b.take(k) =~= b.take(i).take(k));
    assert(b.take(k) =~= b.take(j).take(k));
    assert(c.take(k) =~= c.take(j).take(k));
    if i < j {
        assert(b.take(j)[i] == c.take(j)[i]);
    } else if j < i {
        assert(a.take(i)[j] == b.take(i)[j]);
    }
    assert(texts_part_at(a, c, k));
}

proof fn lemma_route_before_chains(a: Seq<Seq<char>>, b: Seq<Seq<char>>, c: Seq<Seq<char>>)
    requires
        route_before(a, b),
        route_before(b, c),
    ensures
        route_before(a, c),
{
    let i = choose|i: int| #[trigger] routes_part_at(a, b, i);
    let j = choose|j: int| #[trigger] routes_part_at(b, c, j);
    let k = if i < j {
        i
    } else {
        j
    };
    assert(a.take(k) =~= a.take(i).take(k));
    assert(b.take(k) =~= b.take(i).take(k));
    assert(b.take(k) =~= b.take(j).take(k));
    assert(c.take(k) =~= c.take(j).take(k));
    if i < j {
        assert(b.take(j)[i] == c.take(j)[i]);
    } else if j < i {
        assert(a.take(i)[j] == b.take(i)[j]);
    } else if i < a.len() && i < b.len() && part_class(a[i]) == part_class(b[i]) && part_class(
        b[i],
    ) == part_class(c[i]) {
        lemma_text_before_chains(a[i], b[i], c[i]);
    }
    assert(routes_part_at(a, c, k));
}

/// Nothing comes before itself, so what is in strict order holds nothing twice.
pub proof fn law_no_route_is_before_itself(a: Seq<Seq<char>>)
    ensures
        !route_before(a, a),
{
    if route_before(a, a) {
        let k = choose|k: int| #[trigger] routes_part_at(a, a, k);
        if text_before(a[k], a[k]) {
            let j = choose|j: int| #[trigger] texts_part_at(a[k], a[k], j);
        }
    }
}

fn route_of(path: &str) -> (r: Vec<String>)
    ensures
        texts(r@) == path_route(path@),
{
    let cs = chars_of(path);
    let mut route: Vec<String> = Vec::new();
    assert(texts(route@) =~= Seq::empty());
    if cs.len() > 0 && cs[0] == '/' {
        route.push("/".to_owned());
        assert(texts(route@) =~= seq!["/"@]);
    } else if cs.len() > 0 && cs[0] == '.' && (cs.len() == 1 || cs[1] == '/') {
        route.push(".".to_owned());
        assert(texts(route@) =~= seq!["."@]);
    }
    let ghost front = route@;
    let mut rest = parts(path);
    let ghost behind = rest@;
    route.append(&mut rest);
    assert(texts(route@) =~= texts(front) + texts(behind));
    assert(texts(route@) =~= path_route(path@));
    route
}

/// All that the path with a number goes through.
pub open spec fn route_at(paths: Seq<String>, k: int) -> Seq<Seq<char>> {
    path_route(paths[k]@)
}

/// The numbers of the first `n` paths are in order: each is that of the first path of
/// those that lead the same way, each path comes before the next, and no way is left
/// out.
pub open spec fn in_path_order(paths: Seq<String>, n: nat, order: Seq<usize>) -> bool {
    &&& forall|i: int| 0 <= i < order.len() ==> (#[trigger] order[i]) < n
    &&& forall|i: int, k: int|
        0 <= i < order.len() && 0 <= k < order[i] ==> #[trigger] route_at(paths, k) != route_at(
            paths,
            (#[trigger] order[i]) as int,
        )
    &&& forall|i: int, j: int|
        0 <= i < j < order.len() ==> route_before(
            route_at(paths, (#[trigger] order[i]) as int),
            route_at(paths, (#[trigger] order[j]) as int),
        )
    &&& forall|k: int| 0 <= k < n ==> leads_there(paths, order, #[trigger] route_at(paths, k))
}

/// One of the numbered paths leads a way.
pub open spec fn leads_there(paths: Seq<String>, order: Seq<usize>, route: Seq<Seq<char>>) -> bool {
    exists|i: int|
        0 <= i < order.len() && route_at(paths, (#[trigger] order[i]) as int) == route
}

/// A path goes into the order at a place: all before it come before, and it comes
/// before the one that stands there.
spec fn goes_in_at(paths: Seq<String>, n: int, order: Seq<usize>, at: int) -> bool {
    &&& 0 <= at <= order.len()
    &&& forall|j: int|
        0 <= j < at ==> route_before(
            route_at(paths, (#[trigger] order[j]) as int),
            route_at(paths, n),
        )
    &&& at < order.len() ==> route_before(route_at(paths, n), route_at(paths, order[at] as int))
}

proof fn lemma_before_all_behind(paths: Seq<String>, n: nat, order: Seq<usize>, at: int, j: int)
    requires
        in_path_order(paths, n, order),
        goes_in_at(paths, n as int, order, at),
        at <= j < order.len(),
    ensures
        route_before(route_at(paths, n as int), route_at(paths, order[j] as int)),
{
    if at < j {
        lemma_route_before_chains(
            route_at(paths, n as int),
            route_at(paths, order[at] as int),
            route_at(paths, order[j] as int),
        );
    }
}

proof fn lemma_goes_in(paths: Seq<String>, n: usize, order: Seq<usize>, at: int)
    requires
        n < paths.len(),
        in_path_order(paths, n as nat, order),
        goes_in_at(paths, n as int, order, at),
    ensures
        in_path_order(paths, n as nat + 1, order.insert(at, n)),
{
    let more = order.insert(at, n);
    let new = route_at(paths, n as int);
    assert forall|i: int| 0 <= i < more.len() implies #[trigger] more[i] == (if i < at {
        order[i]
    } else if i == at {
        n
    } else {
        order[i - 1]
    }) by {}
    assert forall|k: int| 0 <= k < n implies #[trigger] route_at(paths, k) != new by {
        assert(leads_there(paths, order, route_at(paths, k)));
        let i = choose|i: int|
            0 <= i < order.len() && route_at(paths, (#[trigger] order[i]) as int) == route_at(
                paths,
                k,
            );
        if at <= i {
            lemma_before_all_behind(paths, n as nat, order, at, i);
        }
        law_no_route_is_before_itself(new);
    }
    assert forall|i: int, j: int| 0 <= i < j < more.len() implies route_before(
        route_at(paths, (#[trigger] more[i]) as int),
        route_at(paths, (#[trigger] more[j]) as int),
    ) by {
        if i == at {
            lemma_before_all_behind(paths, n as nat, order, at, j - 1);
        } else if i < at && j < at {
            assert(order[i] == more[i] && order[j] == more[j]);
        } else if i < at && j > at {
            assert(order[i] == more[i] && order[j - 1] == more[j]);
        } else if i < at {
            assert(order[i] == more[i]);
        } else {
            assert(order[i - 1] == more[i] && order[j - 1] == more[j]);
        }
    }
    assert forall|i: int, k: int| 0 <= i < more.len() && 0 <= k < more[i] implies #[trigger] route_at(
        paths,
        k,
    ) != route_at(paths, (#[trigger] more[i]) as int) by {
        if i < at {
            assert(order[i] == more[i]);
        } else if i > at {
            assert(order[i - 1] == more[i]);
        }
    }
    assert forall|k: int| 0 <= k < n + 1 implies leads_there(
        paths,
        more,
        #[trigger] route_at(paths, k),
    ) by {
        if k < n {
            assert(leads_there(paths, order, route_at(paths, k)));
            let i = choose|i: int|
                0 <= i < order.len() && route_at(paths, (#[trigger] order[i]) as int) == route_at(
                    paths,
                    k,
                );
            if i < at {
                assert(route_at(paths, more[i] as int) == route_at(paths, k));
            } else {
                assert(route_at(paths, more[i + 1] as int) == route_at(paths, k));
            }
        } else {
            assert(route_at(paths, more[at] as int) == route_at(paths, k));
        }
    }
}

/// Where a path goes into the order, or nothing where one that leads the same way is in
/// it.
fn place_for(paths: &Vec<String>, order: &Vec<usize>, n: usize) -> (r: Option<usize>)
    requires
        n < paths@.len(),
        in_path_order(paths@, n as nat, order@),
    ensures
        match r {
            Some(at) => goes_in_at(paths@, n as int, order@, at as int),
            None => leads_there(paths@, order@, route_at(paths@, n as int)),
        },
{
    let route = route_of(paths[n].as_str());
    let mut at: usize = 0;
    while at < order.len()
        invariant
            n < paths@.len(),
            at <= order@.len(),
            in_path_order(paths@, n as nat, order@),
            texts(route@) == route_at(paths@, n as int),
            forall|j: int|
                0 <= j < at ==> route_before(
                    route_at(paths@, (#[trigger] order@[j]) as int),
                    route_at(paths@, n as int),
                ),
        decreases order@.len() - at,
    {
        let k: usize = order[at];
        let other = route_of(paths[k].as_str());
        assert(texts(other@) == route_at(paths@, order@[at as int] as int));
        match route_side(&other, &route) {
            Side::Before => {},
            Side::Same => {
                return None;
            },
            Side::Behind => {
                return Some(at);
            },
        }
        at += 1;
    }
    Some(at)
}

/// The order in which files are read: that of their paths, part by part, and each file
/// once. What comes back are the numbers of the paths.
pub fn path_order(paths: &Vec<String>) -> (r: Vec<usize>)
    ensures
        in_path_order(paths@, paths@.len(), r@),
{
    let mut order: Vec<usize> = Vec::new();
    let mut n: usize = 0;
    while n < paths.len()
        invariant
            n <= paths@.len(),
            in_path_order(paths@, n as nat, order@),
        decreases paths@.len() - n,
    {
        if let Some(at) = place_for(paths, &order, n) {
            let ghost before = order@;
            order.insert(at, n);
            proof {
                lemma_goes_in(paths@, n, before, at as int);
            }
        }
        n += 1;
    }
    order
}

/// A text comes before every longer one that starts with it; and of two that part, the
/// one with the smaller character there comes first.
pub proof fn law_texts_stand_in_order(
    common: Seq<char>,
    c: char,
    d: char,
    a: Seq<char>,
    b: Seq<char>,
)
    requires
        c < d,
    ensures
        text_before(common, common + seq![c] + a),
        text_before(common + seq![c] + a, common + seq![d] + b),
        !text_before(common + seq![d] + b, common + seq![c] + a),
{
    let n = common.len() as int;
    let x = common + seq![c] + a;
    let y = common + seq![d] + b;
    assert(x.take(n) =~= common && y.take(n) =~= common && common.take(n) =~= common);
    assert(texts_part_at(common, x, n));
    assert(x[n] == c && y[n] == d);
    assert(texts_part_at(x, y, n));
    if text_before(y, x) {
        lemma_text_before_chains(x, y, x);
        let k = choose|k: int| #[trigger] texts_part_at(x, x, k);
    }
}

/// The root comes before the directory itself, that before the one above it, and that
/// before every name; names stand in the order of their texts.
pub proof fn law_names_come_last(a: Seq<char>, b: Seq<char>)
    requires
        a != "/"@ && a != "."@ && a != ".."@,
        b != "/"@ && b != "."@ && b != ".."@,
    ensures
        part_before("/"@, "."@),
        part_before("."@, ".."@),
        part_before(".."@, a),
        part_before("/"@, a),
        part_before(a, b) <==> text_before(a, b),
{
    reveal_strlit("/");
    reveal_strlit(".");
    reveal_strlit("..");
    assert("/"@[0] == '/' && "."@[0] == '.' && "/"@.len() == 1 && "."@.len() == 1);
    assert(".."@.len() == 2);
}

/// A path from the root goes through the root first; a path that names the directory
/// itself first goes through it; and behind that a path goes through its parts.
pub proof fn law_a_path_goes_through_its_parts(path: Seq<char>)
    ensures
        path.len() > 0 && path[0] == '/' ==> path_route(path) == seq!["/"@] + path_parts(path),
        path.len() > 1 && path[0] == '.' && path[1] == '/' ==> path_route(path) == seq!["."@]
            + path_parts(path),
        path.len() > 0 && path[0] != '/' && path[0] != '.' ==> path_route(path) == path_parts(path),
{
}

/// A directory comes before what is in it, and of two files in it the one with the
/// earlier name comes first.
pub proof fn law_a_directory_comes_before_its_files(
    dir: Seq<Seq<char>>,
    a: Seq<char>,
    b: Seq<char>,
)
    requires
        part_before(a, b),
    ensures
        route_before(dir, dir.push(a)),
        route_before(dir.push(a), dir.push(b)),
{
    let n = dir.len() as int;
    assert(dir.push(a).take(n) =~= dir && dir.push(b).take(n) =~= dir && dir.take(n) =~= dir);
    assert(routes_part_at(dir, dir.push(a), n));
    assert(routes_part_at(dir.push(a), dir.push(b), n));
}

/// Every path has its place in the order, and no two places lead the same way; an
/// earlier place leads to an earlier path.
pub proof fn law_every_file_is_read_once(paths: Seq<String>, order: Seq<usize>, k: int, i: int, j: int)
    requires
        in_path_order(paths, paths.len(), order),
        0 <= k < paths.len(),
        0 <= i < j < order.len(),
    ensures
        exists|p: int|
            0 <= p < order.len() && path_route(paths[(#[trigger] order[p]) as int]@) == path_route(
                paths[k]@,
            ),
        path_route(paths[order[i] as int]@) != path_route(paths[order[j] as int]@),
        route_before(path_route(paths[order[i] as int]@), path_route(paths[order[j] as int]@)),
        order[i] < paths.len(),
{
    assert(leads_there(paths, order, route_at(paths, k)));
    let p = choose|p: int|
        0 <= p < order.len() && route_at(paths, (#[trigger] order[p]) as int) == route_at(paths, k);
    assert(path_route(paths[order[p] as int]@) == path_route(paths[k]@));
    assert(route_before(route_at(paths, order[i] as int), route_at(paths, order[j] as int)));
    law_no_route_is_before_itself(route_at(paths, order[i] as int));
}

} // verus!
