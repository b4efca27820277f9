//! A map of what orbits what, the number of orbits in it, and the way from
//! one object to another.

use vstd::prelude::*;

use crate::failure::{Cause, Failure};
use crate::paths::{distances, edges_within, hops};
use crate::text::{chars_of, copy_text, same_text, split, split_bounds};

verus! {

/// A name, as its characters.
pub type Name = Seq<char>;

/// Where `c` first stands in `line`; the length of `line` if nowhere.
pub open spec fn first_at(line: Seq<char>, c: char) -> int
    decreases line.len(),
{
    if line.len() == 0 || line[0] == c {
        0
    } else {
        1 + first_at(line.drop_first(), c)
    }
}

/// The two objects that `line` names: what stands before its first `)` is
/// orbited by what stands after it. A line without `)` names the second as
/// the empty name.
pub open spec fn orbit_of(line: Seq<char>) -> (Name, Name) {
    let i = first_at(line, ')');
    (
        line.take(i),
        if i < line.len() {
            line.skip(i + 1)
        } else {
            Seq::empty()
        },
    )
}

/// The orbits that the lines of `text` name, if each line names an object
/// that is orbited.
pub open spec fn orbits_of(text: Seq<char>) -> Option<Seq<(Name, Name)>> {
    let lines = split(text, '\n');
    if forall|k: int| 0 <= k < lines.len() ==> orbit_of(#[trigger] lines[k]).0.len() > 0 {
        Some(Seq::new(lines.len(), |k: int| orbit_of(lines[k])))
    } else {
        None
    }
}

/// All names in the order in which the orbits mention them: the two of the
/// first orbit, the two of the second, and so on.
pub open spec fn mentions(orbits: Seq<(Name, Name)>) -> Seq<Name> {
    Seq::new(
        2 * orbits.len(),
        |s: int|
            if s % 2 == 0 {
                orbits[s / 2].0
            } else {
                orbits[s / 2].1
            },
    )
}

/// Where `name` is first mentioned, from place `from` on. This is the
/// number that stands for the object.
pub open spec fn number_of(names: Seq<Name>, name: Name, from: int) -> Option<usize>
    decreases names.len() - from,
{
    if from < 0 || from >= names.len() {
        None
    } else if names[from] == name {
        Some(from as usize)
    } else {
        number_of(names, name, from + 1)
    }
}

/// The number of `name`, and 0 for a name that is not mentioned.
pub open spec fn number_or_zero(names: Seq<Name>, name: Name) -> usize {
    match number_of(names, name, 0) {
        Some(i) => i,
        None => 0,
    }
}

/// The orbits as edges between the numbers of the objects.
pub open spec fn edges_of(orbits: Seq<(Name, Name)>) -> Seq<(usize, usize)> {
    Seq::new(
        orbits.len(),
        |j: int|
            (
                number_or_zero(mentions(orbits), orbits[j].0),
                number_or_zero(mentions(orbits), orbits[j].1),
            ),
    )
}

/// Whether edge `k` is the first of its kind: no edge before it joins the
/// same two objects the same way round.
pub open spec fn is_new(edges: Seq<(usize, usize)>, k: int) -> bool {
    forall|j: int| 0 <= j < k ==> #[trigger] edges[j] != edges[k]
}

/// The depth of `node`, which is `depth`, and the depths of all that is in
/// orbit round it, straight or by way of others, as far as the first `k`
/// edges say what orbits `node`. An object that orbits in more than one way
/// counts once for each. `None` if a chain of orbits is longer than `fuel`.
/// Sums wrap round at the end of the range of `usize`.
pub open spec fn tree_sum(
    edges: Seq<(usize, usize)>,
    node: usize,
    depth: usize,
    fuel: nat,
    k: int,
) -> Option<usize>
    decreases fuel, k,
{
    if k <= 0 {
        Some(depth)
    } else {
        let rest = tree_sum(edges, node, depth, fuel, k - 1);
        if edges[k - 1].0 == node && is_new(edges, k - 1) {
            if fuel == 0 {
                None
            } else {
                match (
                    rest,
                    tree_sum(
                        edges,
                        edges[k - 1].1,
                        depth.wrapping_add(1),
                        (fuel - 1) as nat,
                        edges.len() as int,
                    ),
                ) {
                    (Some(a), Some(b)) => Some(a.wrapping_add(b)),
                    _ => None,
                }
            }
        } else {
            rest
        }
    }
}

/// The name of the centre of mass, round which all else orbits.
pub open spec fn com() -> Name {
    "COM"@
}

/// The number of orbits, straight and by way of others, in the map that
/// `text` draws. The way to count is the plain one with no argument and the
/// recursive one with the argument `recursive`; the two differ only where
/// the map does not mention `COM`.
pub open spec fn orbit_count(text: Seq<char>, args: Seq<String>) -> Result<usize, Cause> {
    match orbits_of(text) {
        None => Err(Cause::BadInput),
        Some(orbits) => if args.len() > 0 && args[0]@ != "recursive"@ {
            Err(Cause::BadArgument)
        } else {
            match number_of(mentions(orbits), com(), 0) {
                None => if args.len() > 0 {
                    Ok(0usize)
                } else {
                    Err(Cause::NoAnswer)
                },
                Some(root) => match tree_sum(
                    edges_of(orbits),
                    root,
                    0,
                    orbits.len(),
                    orbits.len() as int,
                ) {
                    Some(total) => Ok(total),
                    None => Err(Cause::NoAnswer),
                },
            }
        },
    }
}

/// The number of transfers from the object that `YOU` orbits to the object
/// that `SAN` orbits: the steps of the shortest way from `YOU` to `SAN` along
/// orbits, either way round, less the first and the last. The difference
/// wraps round below 0.
pub open spec fn transfers(text: Seq<char>) -> Result<usize, Cause> {
    match orbits_of(text) {
        None => Err(Cause::BadInput),
        Some(orbits) => match (
            number_of(mentions(orbits), "YOU"@, 0),
            number_of(mentions(orbits), "SAN"@, 0),
        ) {
            (Some(you), Some(san)) => match hops(edges_of(orbits), you as int, san as int) {
                Some(steps) => Ok(steps.wrapping_sub(2)),
                None => Err(Cause::NoAnswer),
            },
            _ => Err(Cause::NoAnswer),
        },
    }
}

/// The names in `list`.
pub open spec fn names_in(list: Seq<Vec<char>>) -> Seq<Name> {
    list.map_values(|name: Vec<char>| name@)
}

/// Reads the names of the map, in the order in which they are mentioned.
fn names(input: &str) -> (r: Option<Vec<Vec<char>>>)
    ensures
        match orbits_of(input@) {
            Some(orbits) => r matches Some(list) && names_in(list@) == mentions(orbits),
            None => r is None,
        },
{
    let chars = chars_of(input);
    assert(chars@.subrange(0, chars.len() as int) =~= input@);
    let bounds = split_bounds(&chars, 0, chars.len(), '\n');
    let ghost lines = split(input@, '\n');
    let mut list: Vec<Vec<char>> = Vec::new();
    let mut k: usize = 0;
    while k < bounds.len()
        invariant
            k <= bounds.len() == lines.len(),
            lines == split(input@, '\n'),
            chars@ == input@,
            forall|j: int|
                0 <= j < bounds.len() ==> (#[trigger] bounds[j]).0 <= bounds[j].1 <= chars.len(),
            forall|j: int|
                0 <= j < bounds.len() ==> chars@.subrange(
                    (#[trigger] bounds[j]).0 as int,
                    bounds[j].1 as int,
                ) == lines[j],
            list.len() == 2 * k,
            forall|j: int| 0 <= j < k ==> orbit_of(#[trigger] lines[j]).0.len() > 0,
            forall|j: int| 0 <= j < k ==> (#[trigger] list[2 * j])@ == orbit_of(lines[j]).0,
            forall|j: int| 0 <= j < k ==> (#[trigger] list[2 * j + 1])@ == orbit_of(lines[j]).1,
        decreases bounds.len() - k,
    {
        let (from, to) = bounds[k];
        let ghost line = chars@.subrange(from as int, to as int);
        let mut at: usize = from;
        assert(line.skip(0) =~= line);
        while at < to && chars[at] != ')'
            invariant
                from <= at <= to <= chars.len(),
                line == chars@.subrange(from as int, to as int),
                first_at(line, ')') == (at - from) + first_at(line.skip(at - from), ')'),
            decreases to - at,
        {
            assert(line.skip(at - from).drop_first() =~= line.skip(at - from + 1));
            at = at + 1;
        }
        assert(first_at(line, ')') == at - from) by {
            if at < to {
                assert(line.skip(at - from)[0] == ')');
            } else {
                assert(line.skip(at - from).len() == 0);
            }
        }
        if at == from {
            return None;
        }
        let centre = copy_text(&chars, from, at);
        let around = if at < to {
            let around = copy_text(&chars, at + 1, to);
            around
        } else {
            Vec::new()
        };
        list.push(centre);
        list.push(around);
        k = k + 1;
    }
    proof {
        let orbits = orbits_of(input@).unwrap();
        assert forall|s: int| 0 <= s < 2 * k implies #[trigger] names_in(list@)[s] == mentions(
            orbits,
        )[s] by {
            let j = s / 2;
            if s % 2 == 0 {
                assert(list[2 * j]@ == orbit_of(lines[j]).0);
            } else {
                assert(list[2 * j + 1]@ == orbit_of(lines[j]).1);
            }
        }
    }
    Some(list)
}

/// The number of `name`: where it is first mentioned.
fn number(list: &Vec<Vec<char>>, name: &Vec<char>) -> (r: Option<usize>)
    ensures
        r == number_of(names_in(list@), name@, 0),
        r matches Some(i) ==> i < list.len() && list[i as int]@ == name@,
{
    let mut k: usize = 0;
    while k < list.len()
        invariant
            k <= list.len(),
            number_of(names_in(list@), name@, 0) == number_of(names_in(list@), name@, k as int),
        decreases list.len() - k,
    {
        if same_text(&list[k], name) {
            return Some(k);
        }
        k = k + 1;
    }
    None
}

/// A name that is mentioned has a number, and the number is below the
/// number of mentions.
proof fn lemma_mentioned_has_number(names: Seq<Name>, s: int, from: int)
    requires
        0 <= from <= s < names.len() <= usize::MAX,
    ensures
        number_of(names, names[s], from) matches Some(i) && from <= i <= s,
    decreases s - from,
{
    if names[from] != names[s] {
        lemma_mentioned_has_number(names, s, from + 1);
    }
}

/// The orbits as edges between numbers.
fn edges(list: &Vec<Vec<char>>, Ghost(orbits): Ghost<Seq<(Name, Name)>>) -> (r: Vec<(usize, usize)>)
    requires
        names_in(list@) == mentions(orbits),
    ensures
        r@ == edges_of(orbits),
        edges_within(r@, list.len() as int),
        r.len() == orbits.len(),
{
    let n = list.len() / 2;
    assert(mentions(orbits).len() == 2 * orbits.len());
    let mut r: Vec<(usize, usize)> = Vec::new();
    let mut j: usize = 0;
    while j < n
        invariant
            j <= n,
            n == orbits.len(),
            list.len() == 2 * n,
            names_in(list@) == mentions(orbits),
            r.len() == j,
            forall|i: int| 0 <= i < j ==> #[trigger] r[i] == edges_of(orbits)[i],
            forall|i: int| 0 <= i < j ==> (#[trigger] r[i]).0 < list.len() && r[i].1 < list.len(),
        decreases n - j,
    {
        proof {
            lemma_mentioned_has_number(names_in(list@), 2 * j, 0);
            lemma_mentioned_has_number(names_in(list@), 2 * j + 1, 0);
        }
        let a = match number(list, &list[2 * j]) {
            Some(a) => a,
            None => 0,
        };
        let b = match number(list, &list[2 * j + 1]) {
            Some(b) => b,
            None => 0,
        };
        r.push((a, b));
        j = j + 1;
    }
    r
}

/// Marks the edges that are the first of their kind.
fn fresh(edges: &Vec<(usize, usize)>) -> (r: Vec<bool>)
    ensures
        r.len() == edges.len(),
        forall|k: int| 0 <= k < edges.len() ==> r[k] == is_new(edges@, k),
{
    let mut r: Vec<bool> = Vec::new();
    let mut k: usize = 0;
    while k < edges.len()
        invariant
            k <= edges.len(),
            r.len() == k,
            forall|i: int| 0 <= i < k ==> r[i] == is_new(edges@, i),
        decreases edges.len() - k,
    {
        let mut j: usize = 0;
        let mut new = true;
        while j < k && new
            invariant
                j <= k < edges.len(),
                new ==> forall|i: int| 0 <= i < j ==> #[trigger] edges@[i] != edges@[k as int],
                !new ==> !is_new(edges@, k as int),
            decreases k - j + if new { 1int } else { 0int },
        {
            if edges[j].0 == edges[k].0 && edges[j].1 == edges[k].1 {
                new = false;
            } else {
                j = j + 1;
            }
        }
        r.push(new);
        k = k + 1;
    }
    r
}

/// The depth of `node` and of all that is in orbit round it.
pub fn checksum(edges: &Vec<(usize, usize)>, new: &Vec<bool>, node: usize, d: usize, fuel: usize) -> (r:
    Option<usize>)
    requires
        new.len() == edges.len(),
        forall|k: int| 0 <= k < edges.len() ==> new[k] == is_new(edges@, k),
    ensures
        r == tree_sum(edges@, node, d, fuel as nat, edges.len() as int),
    decreases fuel,
{
    let mut total: usize = d;
    let mut k: usize = 0;
    while k < edges.len()
        invariant
            k <= edges.len(),
            new.len() == edges.len(),
            forall|i: int| 0 <= i < edges.len() ==> new[i] == is_new(edges@, i),
            tree_sum(edges@, node, d, fuel as nat, k as int) == Some(total),
        decreases edges.len() - k,
    {
        if edges[k].0 == node && new[k] {
            if fuel == 0 {
                proof {
                    lemma_none_stays(edges@, node, d, fuel as nat, k + 1, edges.len() as int);
                }
                return None;
            }
            match checksum(edges, new, edges[k].1, d.wrapping_add(1), fuel - 1) {
                Some(below) => {
                    total = total.wrapping_add(below);
                },
                None => {
                    proof {
                        lemma_none_stays(edges@, node, d, fuel as nat, k + 1, edges.len() as int);
                    }
                    return None;
                },
            }
        }
        k = k + 1;
    }
    Some(total)
}

/// A sum that has failed for the first `k` edges fails for more.
proof fn lemma_none_stays(
    edges: Seq<(usize, usize)>,
    node: usize,
    depth: usize,
    fuel: nat,
    k: int,
    n: int,
)
    requires
        0 <= k <= n,
        tree_sum(edges, node, depth, fuel, k) is None,
    ensures
        tree_sum(edges, node, depth, fuel, n) is None,
    decreases n - k,
{
    if k < n {
        lemma_none_stays(edges, node, depth, fuel, k, n - 1);
    }
}

/// The characters of a short name.
fn name_of(s: &str) -> (name: Vec<char>)
    ensures
        name@ == s@,
{
    chars_of(s)
}

/// The number of orbits, straight and by way of others, in the map in
/// `input`, which names on each line an object, then `)`, then an object in
/// orbit round it. The one argument that is taken is `recursive`. It is
/// `Failure::BadInput` if a line names no object before `)`,
/// `Failure::BadArgument` for another argument, and `Failure::NoAnswer` if a
/// chain of orbits is longer than the map or, without the argument, the map
/// does not mention `COM`.
pub fn q1(input: String, args: &[String]) -> (r: Result<usize, Failure>)
    ensures
        match orbit_count(input@, args@) {
            Ok(n) => r == Ok::<usize, Failure>(n),
            Err(cause) => r matches Err(e) && e@ == cause,
        },
{
    let list = match names(input.as_str()) {
        Some(list) => list,
        None => {
            return Err(Failure::BadInput);
        },
    };
    let ghost orbits = orbits_of(input@).unwrap();
    if args.len() > 0 {
        let given = chars_of(args[0].as_str());
        if !same_text(&given, &name_of("recursive")) {
            return Err(Failure::BadArgument);
        }
    }
    let root = match number(&list, &name_of("COM")) {
        Some(root) => root,
        None => {
            return if args.len() > 0 {
                Ok(0)
            } else {
                Err(Failure::NoAnswer)
            };
        },
    };
    let links = edges(&list, Ghost(orbits));
    let new = fresh(&links);
    match checksum(&links, &new, root, 0, links.len()) {
        Some(total) => Ok(total),
        None => Err(Failure::NoAnswer),
    }
}

/// The number of transfers that take you from the object you orbit to the
/// object that Santa orbits. It is `Failure::BadInput` if a line names no
/// object before `)`, and `Failure::NoAnswer` if the map does not mention
/// `YOU` or `SAN` or no way leads from the one to the other.
pub fn q2(input: String, _args: &[String]) -> (r: Result<usize, Failure>)
    ensures
        match transfers(input@) {
            Ok(n) => r == Ok::<usize, Failure>(n),
            Err(cause) => r matches Err(e) && e@ == cause,
        },
{
    let list = match names(input.as_str()) {
        Some(list) => list,
        None => {
            return Err(Failure::BadInput);
        },
    };
    let ghost orbits = orbits_of(input@).unwrap();
    let you = number(&list, &name_of("YOU"));
    let san = number(&list, &name_of("SAN"));
    let (you, san) = match (you, san) {
        (Some(you), Some(san)) => (you, san),
        _ => {
            return Err(Failure::NoAnswer);
        },
    };
    let links = edges(&list, Ghost(orbits));
    let dist = distances(list.len(), &links, you);
    match dist[san] {
        Some(steps) => Ok(steps.wrapping_sub(2)),
        None => Err(Failure::NoAnswer),
    }
}

} // verus!
