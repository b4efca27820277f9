//! The ore that it takes to make fuel by a list of reactions, and the fuel
//! that a hold full of ore makes.

use std::collections::VecDeque;
use vstd::prelude::*;

use crate::failure::{Cause, Failure};
use crate::text::{
    chars_of, copy_text, parse_u64, parse_u64_in, same_text, split, split_bounds, split_on_pair,
    split_on_pair_bounds, trim, trim_bounds,
};

verus! {

/// A name, as its characters.
pub type Name = Seq<char>;

/// The way to find how many times a reaction has to run.
pub trait Rounding: Sized {
    /// The number of times that a reaction which makes `made` units has to
    /// run for `wanted` units.
    spec fn times(&self, wanted: u64, made: u64) -> u64;

    /// The number of times that a reaction which makes `made` units has to
    /// run for `wanted` units.
    fn round_up(&self, wanted: u64, made: u64) -> (n: u64)
        ensures
            n == self.times(wanted, made),
    ;
}

/// The least number of runs that make enough: `wanted` by `made`, rounded
/// up. For a reaction that makes nothing it is 0.
#[derive(Debug, Clone, Copy)]
pub struct Exact;

impl Rounding for Exact {
    open spec fn times(&self, wanted: u64, made: u64) -> u64 {
        if made == 0 {
            0
        } else {
            ((wanted + made - 1) / made as int) as u64
        }
    }

    fn round_up(&self, wanted: u64, made: u64) -> (n: u64) {
        if made == 0 {
            0
        } else {
            let n = ((wanted as u128 + made as u128 - 1) / made as u128) as u64;
            n
        }
    }
}

/// A reaction as the contracts see it.
pub struct Recipe {
    /// The number of units that one run makes.
    pub amount: u64,
    /// What it makes.
    pub product: Name,
    /// What one run takes, as units and name.
    pub inputs: Seq<(u64, Name)>,
}

/// A reaction.
#[derive(Debug, Clone, PartialEq, Eq)]
pub struct Reaction {
    /// The number of units that one run makes.
    pub amount: u64,
    /// What it makes.
    pub product: Vec<char>,
    /// What one run takes, as units and name.
    pub inputs: Vec<(u64, Vec<char>)>,
}

impl View for Reaction {
    type V = Recipe;

    open spec fn view(&self) -> Recipe {
        Recipe {
            amount: self.amount,
            product: self.product@,
            inputs: self.inputs@.map_values(|input: (u64, Vec<char>)| (input.0, input.1@)),
        }
    }
}

/// The recipes of `list`.
pub open spec fn recipes_in(list: Seq<Reaction>) -> Seq<Recipe> {
    list.map_values(|reaction: Reaction| reaction@)
}

/// The units and the name that `s` writes: a number, a blank and a name.
/// What follows a second blank is not looked at.
pub open spec fn amount_and_name(s: Seq<char>) -> Option<(u64, Name)> {
    let words = split(s, ' ');
    if words.len() < 2 {
        None
    } else {
        match parse_u64(trim(words[0])) {
            Some(n) => Some((n, trim(words[1]))),
            None => None,
        }
    }
}

/// What one run takes, as `s` lists it: units and names with a comma and a
/// blank between them.
pub open spec fn inputs_of(s: Seq<char>) -> Option<Seq<(u64, Name)>> {
    let parts = split_on_pair(s, ',', ' ');
    if forall|k: int| 0 <= k < parts.len() ==> amount_and_name(#[trigger] parts[k]) is Some {
        Some(Seq::new(parts.len(), |k: int| amount_and_name(parts[k]).unwrap()))
    } else {
        None
    }
}

/// The reaction that `line` writes: what it takes, then `=>`, then what it
/// makes. What follows a second `=>` is not looked at.
pub open spec fn recipe_of(line: Seq<char>) -> Option<Recipe> {
    let sides = split_on_pair(line, '=', '>');
    if sides.len() < 2 {
        None
    } else {
        match (amount_and_name(trim(sides[1])), inputs_of(trim(sides[0]))) {
            (Some((amount, product)), Some(inputs)) => Some(Recipe { amount, product, inputs }),
            _ => None,
        }
    }
}

/// The reactions that `text` writes, one on each line.
pub open spec fn recipes_of(text: Seq<char>) -> Option<Seq<Recipe>> {
    let lines = split(text, '\n');
    if forall|k: int| 0 <= k < lines.len() ==> recipe_of(#[trigger] lines[k]) is Some {
        Some(Seq::new(lines.len(), |k: int| recipe_of(lines[k]).unwrap()))
    } else {
        None
    }
}

/// The reaction that makes `product`, among the first `n`: the last of
/// them, if there are several.
pub open spec fn recipe_for(recipes: Seq<Recipe>, product: Name, n: int) -> Option<int>
    decreases n,
{
    if n <= 0 {
        None
    } else if recipes[n - 1].product == product {
        Some(n - 1)
    } else {
        recipe_for(recipes, product, n - 1)
    }
}

/// What is left over of each chemical that was made: units by name, each
/// name once.
pub type Stock = Seq<(Name, u64)>;

/// Where among the first `n` entries of `stock` the chemical `name` is
/// kept.
pub open spec fn shelf_of(stock: Stock, name: Name, n: int) -> Option<int>
    decreases n,
{
    if n <= 0 {
        None
    } else if stock[n - 1].0 == name {
        Some(n - 1)
    } else {
        shelf_of(stock, name, n - 1)
    }
}

/// The stock with `units` kept for `name`.
pub open spec fn stocked(stock: Stock, name: Name, units: u64) -> Stock {
    match shelf_of(stock, name, stock.len() as int) {
        Some(i) => stock.update(i, (name, units)),
        None => stock.push((name, units)),
    }
}

/// The work between two requests.
pub struct Works {
    /// The requests that wait, as units and name, the next one first.
    pub queue: Seq<(u64, Name)>,
    /// What is left over.
    pub stock: Stock,
    /// The ore used so far.
    pub ore: u64,
}

/// `inputs` with each number of units taken `times` times. Products wrap
/// round at the end of the 64-bit range.
pub open spec fn scaled(inputs: Seq<(u64, Name)>, times: u64) -> Seq<(u64, Name)> {
    inputs.map_values(|input: (u64, Name)| (input.0.wrapping_mul(times), input.1))
}

/// The name of the raw material.
pub open spec fn ore_name() -> Name {
    "ORE"@
}

/// The name of what is wanted in the end.
pub open spec fn fuel_name() -> Name {
    "FUEL"@
}

/// The work after its next request was seen to. Ore is counted. Of any
/// other chemical what is left over is used first; for the rest the reaction
/// that makes it runs as many times as `rule` says, what it makes beyond the
/// request is left over, and what it takes is requested in turn. It is a
/// failure if no reaction makes the chemical. Sums, products and differences
/// wrap round at the ends of the 64-bit range.
pub open spec fn serve<R: Rounding>(rule: R, recipes: Seq<Recipe>, works: Works) -> Result<
    Works,
    Cause,
> {
    let wanted = works.queue[0].0;
    let name = works.queue[0].1;
    let rest = works.queue.drop_first();
    if name == ore_name() {
        Ok(Works { queue: rest, ore: works.ore.wrapping_add(wanted), ..works })
    } else {
        let shelf = shelf_of(works.stock, name, works.stock.len() as int);
        if shelf is Some && works.stock[shelf.unwrap()].1 >= wanted {
            Ok(
                Works {
                    queue: rest,
                    stock: works.stock.update(
                        shelf.unwrap(),
                        (name, (works.stock[shelf.unwrap()].1 - wanted) as u64),
                    ),
                    ..works
                },
            )
        } else {
            let missing = if shelf is Some {
                (wanted - works.stock[shelf.unwrap()].1) as u64
            } else {
                wanted
            };
            match recipe_for(recipes, name, recipes.len() as int) {
                None => Err(Cause::BadInput),
                Some(r) => {
                    let times = rule.times(missing, recipes[r].amount);
                    let over = times.wrapping_mul(recipes[r].amount).wrapping_sub(missing);
                    Ok(
                        Works {
                            queue: rest + scaled(recipes[r].inputs, times),
                            stock: stocked(works.stock, name, over),
                            ore: works.ore,
                        },
                    )
                },
            }
        }
    }
}

/// The work once no request waits; a failure if a request fails or `fuel`
/// requests do not get there.
pub open spec fn settle<R: Rounding>(rule: R, recipes: Seq<Recipe>, works: Works, fuel: nat)
    -> Result<Works, Cause>
    decreases fuel,
{
    if works.queue.len() == 0 {
        Ok(works)
    } else if fuel == 0 {
        Err(Cause::NoAnswer)
    } else {
        match serve(rule, recipes, works) {
            Err(cause) => Err(cause),
            Ok(next) => settle(rule, recipes, next, (fuel - 1) as nat),
        }
    }
}

/// The number of requests that one order may take.
pub const REQUEST_BUDGET: u64 = 0xffff_ffff_ffff_ffff;

/// The ore that `units` of fuel take with `stock` left over from before,
/// and what is left over after.
pub open spec fn ore_for<R: Rounding>(rule: R, recipes: Seq<Recipe>, stock: Stock, units: u64)
    -> Result<Works, Cause> {
    settle(
        rule,
        recipes,
        Works { queue: seq![(units, fuel_name())], stock, ore: 0 },
        REQUEST_BUDGET as nat,
    )
}

/// The ore that one unit of fuel takes by the reactions in `text`.
pub open spec fn ore_for_one<R: Rounding>(rule: R, text: Seq<char>) -> Result<u64, Cause> {
    match recipes_of(text) {
        None => Err(Cause::BadInput),
        Some(recipes) => match ore_for(rule, recipes, Seq::empty(), 1) {
            Ok(works) => Ok(works.ore),
            Err(cause) => Err(cause),
        },
    }
}

/// The stock as the contracts see it.
pub open spec fn stock_in(shelves: Seq<(Vec<char>, u64)>) -> Stock {
    shelves.map_values(|shelf: (Vec<char>, u64)| (shelf.0@, shelf.1))
}

/// The requests as the contracts see them.
pub open spec fn requests_in(queue: Seq<(u64, Vec<char>)>) -> Seq<(u64, Name)> {
    queue.map_values(|request: (u64, Vec<char>)| (request.0, request.1@))
}

/// Reads `chars[from..to]` as units and a name.
fn amount_name(chars: &Vec<char>, from: usize, to: usize) -> (r: Option<(u64, Vec<char>)>)
    requires
        from <= to <= chars.len(),
    ensures
        match amount_and_name(chars@.subrange(from as int, to as int)) {
            Some((n, name)) => r matches Some(found) && found.0 == n && found.1@ == name,
            None => r is None,
        },
{
    let words = split_bounds(chars, from, to, ' ');
    if words.len() < 2 {
        return None;
    }
    let (lo, hi) = trim_bounds(chars, words[0].0, words[0].1);
    let n = match parse_u64_in(chars, lo, hi) {
        Some(n) => n,
        None => {
            return None;
        },
    };
    let (lo, hi) = trim_bounds(chars, words[1].0, words[1].1);
    Some((n, copy_text(chars, lo, hi)))
}

/// Reads `chars[from..to]` as a reaction.
fn reaction(chars: &Vec<char>, from: usize, to: usize) -> (r: Option<Reaction>)
    requires
        from <= to <= chars.len(),
    ensures
        match recipe_of(chars@.subrange(from as int, to as int)) {
            Some(recipe) => r matches Some(found) && found@ == recipe,
            None => r is None,
        },
{
    let ghost line = chars@.subrange(from as int, to as int);
    let sides = split_on_pair_bounds(chars, from, to, '=', '>');
    if sides.len() < 2 {
        return None;
    }
    let (lo, hi) = trim_bounds(chars, sides[1].0, sides[1].1);
    let made = amount_name(chars, lo, hi);
    let (lo, hi) = trim_bounds(chars, sides[0].0, sides[0].1);
    let ghost left = chars@.subrange(lo as int, hi as int);
    let parts = split_on_pair_bounds(chars, lo, hi, ',', ' ');
    let ghost pieces = split_on_pair(left, ',', ' ');
    let mut inputs: Vec<(u64, Vec<char>)> = Vec::new();
    let mut k: usize = 0;
    while k < parts.len()
        invariant
            k <= parts.len() == pieces.len(),
            pieces == split_on_pair(left, ',', ' '),
            lo <= hi <= chars.len(),
            left == chars@.subrange(lo as int, hi as int),
            from <= to <= chars.len(),
            line == chars@.subrange(from as int, to as int),
            split_on_pair(line, '=', '>').len() >= 2,
            left == trim(split_on_pair(line, '=', '>')[0]),
            forall|j: int|
                0 <= j < parts.len() ==> (#[trigger] parts[j]).0 <= parts[j].1 <= chars.len(),
            forall|j: int|
                0 <= j < parts.len() ==> chars@.subrange(
                    (#[trigger] parts[j]).0 as int,
                    parts[j].1 as int,
                ) == pieces[j],
            inputs.len() == k,
            forall|j: int|
                0 <= j < k ==> amount_and_name(#[trigger] pieces[j]) == Some(
                    (inputs[j].0, inputs[j].1@),
                ),
        decreases parts.len() - k,
    {
        match amount_name(chars, parts[k].0, parts[k].1) {
            Some(input) => {
                inputs.push(input);
            },
            None => {
                return None;
            },
        }
        k = k + 1;
    }
    match made {
        Some((amount, product)) => {
            let found = Reaction { amount, product, inputs };
            assert(found@.inputs =~= inputs_of(left).unwrap());
            Some(found)
        },
        None => None,
    }
}

/// Reads the reactions in `input`, one on each line.
pub fn reactions(input: &str) -> (r: Option<Vec<Reaction>>)
    ensures
        match recipes_of(input@) {
            Some(recipes) => r matches Some(list) && recipes_in(list@) == recipes,
            None => r is None,
        },
{
    let chars = chars_of(input);
    assert(chars@.subrange(0, chars.len() as int) =~= input@);
    let bounds = split_bounds(&chars, 0, chars.len(), '\n');
    let ghost lines = split(input@, '\n');
    let mut list: Vec<Reaction> = Vec::new();
    let mut k: usize = 0;
    while k < bounds.len()
        invariant
            k <= bounds.len() == lines.len(),
            lines == split(input@, '\n'),
            chars@ == input@,
            forall|j: int|
                0 <= j < bounds.len() ==> (#[trigger] bounds[j]).0 <= bounds[j].1 <= chars.len(),
            forall|j: int|
                0 <= j < bounds.len() ==> chars@.subrange(
                    (#[trigger] bounds[j]).0 as int,
                    bounds[j].1 as int,
                ) == lines[j],
            list.len() == k,
            forall|j: int| 0 <= j < k ==> recipe_of(#[trigger] lines[j]) == Some(list[j]@),
        decreases bounds.len() - k,
    {
        match reaction(&chars, bounds[k].0, bounds[k].1) {
            Some(found) => {
                list.push(found);
            },
            None => {
                return None;
            },
        }
        k = k + 1;
    }
    Some(list)
}

/// The reaction that makes `product`.
fn find_reaction(list: &Vec<Reaction>, product: &Vec<char>) -> (r: Option<usize>)
    ensures
        match recipe_for(recipes_in(list@), product@, list.len() as int) {
            Some(i) => r == Some(i as usize) && 0 <= i < list.len(),
            None => r is None,
        },
{
    let mut n: usize = list.len();
    while n > 0
        invariant
            n <= list.len(),
            recipe_for(recipes_in(list@), product@, list.len() as int) == recipe_for(
                recipes_in(list@),
                product@,
                n as int,
            ),
        decreases n,
    {
        if same_text(&list[n - 1].product, product) {
            return Some(n - 1);
        }
        n = n - 1;
    }
    None
}

/// Where `name` is kept.
fn find_shelf(shelves: &Vec<(Vec<char>, u64)>, name: &Vec<char>) -> (r: Option<usize>)
    ensures
        match shelf_of(stock_in(shelves@), name@, shelves.len() as int) {
            Some(i) => r == Some(i as usize) && 0 <= i < shelves.len() && shelves[i].0@ == name@,
            None => r is None,
        },
{
    let mut n: usize = shelves.len();
    while n > 0
        invariant
            n <= shelves.len(),
            shelf_of(stock_in(shelves@), name@, shelves.len() as int) == shelf_of(
                stock_in(shelves@),
                name@,
                n as int,
            ),
        decreases n,
    {
        if same_text(&shelves[n - 1].0, name) {
            return Some(n - 1);
        }
        n = n - 1;
    }
    None
}

/// A copy of `name`.
fn copy_name(name: &Vec<char>) -> (copy: Vec<char>)
    ensures
        copy@ == name@,
{
    let copy = copy_text(name, 0, name.len());
    copy
}

/// The ore that `fuel` units of fuel take by the reactions in `list`, with
/// `excess` left over from before. What is left over after is in `excess`.
pub fn req_ore<R: Rounding>(
    rule: &R,
    list: &Vec<Reaction>,
    excess: &mut Vec<(Vec<char>, u64)>,
    fuel: u64,
) -> (r: Result<u64, Failure>)
    ensures
        match ore_for(*rule, recipes_in(list@), stock_in(old(excess)@), fuel) {
            Ok(works) => r == Ok::<u64, Failure>(works.ore) && stock_in(final(excess)@)
                == works.stock,
            Err(cause) => r matches Err(e) && e@ == cause,
        },
{
    let ghost recipes = recipes_in(list@);
    let ore_text = chars_of("ORE");
    let mut queue: VecDeque<(u64, Vec<char>)> = VecDeque::new();
    queue.push_back((fuel, chars_of("FUEL")));
    assert(requests_in(queue@) =~= seq![(fuel, fuel_name())]);
    let mut ore: u64 = 0;
    let mut budget: u64 = REQUEST_BUDGET;
    loop
        invariant
            recipes == recipes_in(list@),
            ore_text@ == ore_name(),
            settle(
                *rule,
                recipes,
                Works { queue: requests_in(queue@), stock: stock_in(excess@), ore },
                budget as nat,
            ) == ore_for(*rule, recipes, stock_in(old(excess)@), fuel),
        decreases budget,
    {
        let ghost works = Works { queue: requests_in(queue@), stock: stock_in(excess@), ore };
        let (wanted, name) = match queue.pop_front() {
            Some(request) => request,
            None => {
                return Ok(ore);
            },
        };
        assert(requests_in(queue@) =~= works.queue.drop_first());
        if budget == 0 {
            return Err(Failure::NoAnswer);
        }
        budget = budget - 1;
        if same_text(&name, &ore_text) {
            ore = ore.wrapping_add(wanted);
            continue;
        }
        let shelf = find_shelf(excess, &name);
        let mut missing = wanted;
        match shelf {
            Some(i) => {
                let have = excess[i].1;
                if have >= wanted {
                    let kept = copy_name(&excess[i].0);
                    excess.set(i, (kept, have - wanted));
                    assert(stock_in(excess@) =~= works.stock.update(
                        i as int,
                        (name@, (have - wanted) as u64),
                    ));
                    continue;
                }
                missing = wanted - have;
            },
            None => {},
        }
        let r = match find_reaction(list, &name) {
            Some(r) => r,
            None => {
                return Err(Failure::BadInput);
            },
        };
        let times = rule.round_up(missing, list[r].amount);
        let over = times.wrapping_mul(list[r].amount).wrapping_sub(missing);
        match shelf {
            Some(i) => {
                excess.set(i, (name, over));
                assert(stock_in(excess@) =~= stocked(works.stock, works.queue[0].1, over));
            },
            None => {
                excess.push((name, over));
                assert(stock_in(excess@) =~= stocked(works.stock, works.queue[0].1, over));
            },
        }
        let ghost before = requests_in(queue@);
        let mut k: usize = 0;
        while k < list[r].inputs.len()
            invariant
                r < list.len(),
                k <= list[r as int].inputs.len(),
                recipes == recipes_in(list@),
                requests_in(queue@) == before + scaled(recipes[r as int].inputs, times).take(
                    k as int,
                ),
            decreases list[r as int].inputs.len() - k,
        {
            let ghost so_far = requests_in(queue@);
            let units = list[r].inputs[k].0.wrapping_mul(times);
            let what = copy_name(&list[r].inputs[k].1);
            queue.push_back((units, what));
            assert(requests_in(queue@) =~= so_far.push((units, what@)));
            k = k + 1;
        }
        assert(scaled(recipes[r as int].inputs, times).take(
            list[r as int].inputs.len() as int,
        ) =~= scaled(recipes[r as int].inputs, times));
    }
}

/// The ore that one unit of fuel takes by the reactions in `input`, where
/// `rule` says how many times a reaction has to run. It is
/// `Failure::BadInput` if a line is no reaction or a chemical is wanted that
/// no reaction makes.
pub fn q1<R: Rounding>(input: String, _args: &[String], rule: &R) -> (r: Result<u64, Failure>)
    ensures
        match ore_for_one(*rule, input@) {
            Ok(ore) => r == Ok::<u64, Failure>(ore),
            Err(cause) => r matches Err(e) && e@ == cause,
        },
{
    let list = match reactions(input.as_str()) {
        Some(list) => list,
        None => {
            return Err(Failure::BadInput);
        },
    };
    let mut excess: Vec<(Vec<char>, u64)> = Vec::new();
    assert(stock_in(excess@) =~= Seq::<(Name, u64)>::empty());
    req_ore(rule, &list, &mut excess, 1)
}

/// The hold between two orders of fuel.
pub struct Hold {
    /// What is left over of each chemical.
    pub stock: Stock,
    /// The units of fuel that the next order asks for.
    pub step: u64,
    /// The ore that is left.
    pub ore: u64,
    /// The fuel made so far.
    pub fuel: u64,
}

/// The ore in a full hold.
pub const FULL_HOLD: u64 = 1000000000000;

/// The units of fuel that the first orders ask for.
pub const FIRST_STEP: u64 = 1024;

/// The fuel that the hold makes in the end. Fuel is ordered `step` units at
/// a time. An order that the ore pays for is made; one that it does not pay
/// for is dropped, though what it left over stays, and the step is halved;
/// at a step of 1 that ends the work. It is a failure if an order fails or
/// `budget` orders do not get there.
pub open spec fn refuel<R: Rounding>(rule: R, recipes: Seq<Recipe>, hold: Hold, budget: nat)
    -> Result<u64, Cause>
    decreases budget,
{
    if budget == 0 {
        Err(Cause::NoAnswer)
    } else {
        match ore_for(rule, recipes, hold.stock, hold.step) {
            Err(cause) => Err(cause),
            Ok(works) => if works.ore > hold.ore {
                if hold.step == 1 {
                    Ok(hold.fuel)
                } else {
                    refuel(
                        rule,
                        recipes,
                        Hold { stock: works.stock, step: hold.step / 2, ..hold },
                        (budget - 1) as nat,
                    )
                }
            } else {
                refuel(
                    rule,
                    recipes,
                    Hold {
                        stock: works.stock,
                        step: hold.step,
                        ore: (hold.ore - works.ore) as u64,
                        fuel: hold.fuel.wrapping_add(hold.step),
                    },
                    (budget - 1) as nat,
                )
            },
        }
    }
}

/// The fuel that a full hold of ore makes by the reactions in `text`.
pub open spec fn fuel_from_full_hold<R: Rounding>(rule: R, text: Seq<char>) -> Result<u64, Cause> {
    match recipes_of(text) {
        None => Err(Cause::BadInput),
        Some(recipes) => refuel(
            rule,
            recipes,
            Hold { stock: Seq::empty(), step: FIRST_STEP, ore: FULL_HOLD, fuel: 0 },
            REQUEST_BUDGET as nat,
        ),
    }
}

/// The fuel that a hold of `FULL_HOLD` units of ore makes by the reactions
/// in `input`, where `rule` says how many times a reaction has to run.
pub fn q2<R: Rounding>(input: String, _args: &[String], rule: &R) -> (r: Result<u64, Failure>)
    ensures
        match fuel_from_full_hold(*rule, input@) {
            Ok(fuel) => r == Ok::<u64, Failure>(fuel),
            Err(cause) => r matches Err(e) && e@ == cause,
        },
{
    let list = match reactions(input.as_str()) {
        Some(list) => list,
        None => {
            return Err(Failure::BadInput);
        },
    };
    let ghost recipes = recipes_in(list@);
    let mut excess: Vec<(Vec<char>, u64)> = Vec::new();
    assert(stock_in(excess@) =~= Seq::<(Name, u64)>::empty());
    let mut step: u64 = FIRST_STEP;
    let mut ore: u64 = FULL_HOLD;
    let mut fuel: u64 = 0;
    let mut budget: u64 = REQUEST_BUDGET;
    while budget > 0
        invariant
            recipes == recipes_in(list@),
            recipes_of(input@) == Some(recipes),
            refuel(
                *rule,
                recipes,
                Hold { stock: stock_in(excess@), step, ore, fuel },
                budget as nat,
            ) == fuel_from_full_hold(*rule, input@),
        decreases budget,
    {
        let cost = match req_ore(rule, &list, &mut excess, step) {
            Ok(cost) => cost,
            Err(e) => {
                return Err(e);
            },
        };
        if cost > ore {
            if step == 1 {
                return Ok(fuel);
            }
            step = step / 2;
        } else {
            fuel = fuel.wrapping_add(step);
            ore = ore - cost;
        }
        budget = budget - 1;
    }
    Err(Failure::NoAnswer)
}

} // verus!
