//! Small verified routines over lists and counters.
use vstd::prelude::*;

verus! {

/// The two kinds of IP address.
#[derive(Clone, Copy, Debug, PartialEq, Eq, Structural)]
pub enum IpAddr {
    V4,
    V6,
}

/// Accepts an address kind and does nothing with it.
pub fn route(ip_kind: IpAddr) {
}

/// The largest number of a non-empty list.
pub fn largest(list: &[i32]) -> (r: i32)
    requires
        list@.len() > 0,
    ensures
        list@.contains(r),
        forall|i: int| 0 <= i < list@.len() ==> list@[i] <= r,
{
    let mut largest = list[0];
    let mut k: usize = 0;
    while k < list.len()
        invariant
            k <= list@.len(),
            list@.contains(largest),
            forall|i: int| 0 <= i < k ==> list@[i] <= largest,
        decreases list@.len() - k,
    {
        let item = list[k];
        if item > largest {
            largest = item;
        }
        k = k + 1;
    }
    largest
}

/// The largest character of a non-empty list.
pub fn largest_char(list: &[char]) -> (r: char)
    requires
        list@.len() > 0,
    ensures
        list@.contains(r),
        forall|i: int| 0 <= i < list@.len() ==> list@[i] <= r,
{
    let mut largest = list[0];
    let mut k: usize = 0;
    while k < list.len()
        invariant
            k <= list@.len(),
            list@.contains(largest),
            forall|i: int| 0 <= i < k ==> list@[i] <= largest,
        decreases list@.len() - k,
    {
        let c = list[k];
        if c > largest {
            largest = c;
        }
        k = k + 1;
    }
    largest
}

/// The Fibonacci numbers, starting 0, 1, 1, 2, 3, 5.
pub open spec fn fib_spec(n: nat) -> nat
    decreases n,
{
    if n == 0 {
        0
    } else if n == 1 {
        1
    } else {
        fib_spec((n - 1) as nat) + fib_spec((n - 2) as nat)
    }
}

/// The largest index whose Fibonacci number fits in an `i8`.
pub const FIB_MAX_INDEX: i8 = 11;

proof fn lemma_fib_monotonic(i: nat, j: nat)
    requires
        i <= j,
    ensures
        fib_spec(i) <= fib_spec(j),
    decreases j,
{
    if i < j {
        lemma_fib_monotonic(i, (j - 1) as nat);
    }
}

/// The `a`-th Fibonacci number; zero for a negative `a`.
pub fn fib(a: i8) -> (r: i8)
    requires
        a <= FIB_MAX_INDEX,
    ensures
        r == if a <= 0 { 0 } else { fib_spec(a as nat) as int },
{
    let mut previous: i8 = 1;
    let mut value: i8 = 0;
    let mut counter: i8 = 0;
    proof {
        reveal_with_fuel(fib_spec, 12);
    }
    while counter < a
        invariant
            0 <= counter,
            counter <= a || (a < 0 && counter == 0),
            a <= FIB_MAX_INDEX,
            value == fib_spec(counter as nat),
            counter == 0 ==> previous == 1,
            counter > 0 ==> previous == fib_spec((counter - 1) as nat),
        decreases a - counter,
    {
        proof {
            lemma_fib_monotonic((counter + 1) as nat, 11);
            reveal_with_fuel(fib_spec, 12);
        }
        counter = counter + 1;
        let swap = previous;
        previous = value;
        value = value + swap;
    }
    value
}

/// What a number is called in the counting game.
#[derive(Clone, Copy, Debug, PartialEq, Eq, Structural)]
pub enum Word {
    Fizz,
    Buzz,
    FizzBuzz,
}

/// The word for a positive number: `FizzBuzz` for multiples of 15, `Fizz`
/// for other multiples of 3, `Buzz` for other multiples of 5, none otherwise.
pub open spec fn word_of(j: int) -> Option<Word> {
    if j % 3 == 0 && j % 5 == 0 {
        Some(Word::FizzBuzz)
    } else if j % 3 == 0 {
        Some(Word::Fizz)
    } else if j % 5 == 0 {
        Some(Word::Buzz)
    } else {
        None
    }
}

/// The numbers from `j` down to 1 that have a word, each with its word.
pub open spec fn calls_from(j: int) -> Seq<(i8, Word)>
    decreases j,
{
    if j <= 0 {
        Seq::empty()
    } else {
        match word_of(j) {
            Some(w) => seq![(j as i8, w)] + calls_from(j - 1),
            None => calls_from(j - 1),
        }
    }
}

/// Counts down from `*i` to 1 and names each number that has a word; the
/// counter itself is left as it was.
pub fn fizzbuzz(i: &mut i8) -> (calls: Vec<(i8, Word)>)
    ensures
        *final(i) == *old(i),
        calls@ == calls_from(*old(i) as int),
{
    let mut j: i8 = *i;
    let mut calls: Vec<(i8, Word)> = Vec::new();
    assert(calls@ + calls_from(j as int) =~= calls_from(j as int));
    while j > 0
        invariant
            calls@ + calls_from(j as int) == calls_from(*i as int),
        decreases j,
    {
        let ghost before = calls@;
        if j % 3 == 0 && j % 5 == 0 {
            calls.push((j, Word::FizzBuzz));
        } else if j % 3 == 0 {
            calls.push((j, Word::Fizz));
        } else if j % 5 == 0 {
            calls.push((j, Word::Buzz));
        }
        assert(calls@ + calls_from(j - 1) =~= before + calls_from(j as int));
        j = j - 1;
    }
    assert(calls@ + calls_from(j as int) =~= calls@);
    calls
}

/// The same count as `fizzbuzz`, deciding on both remainders at once.
pub fn fizzbuzz2(i: &mut i8) -> (calls: Vec<(i8, Word)>)
    ensures
        *final(i) == *old(i),
        calls@ == calls_from(*old(i) as int),
{
    let mut j: i8 = *i;
    let mut calls: Vec<(i8, Word)> = Vec::new();
    assert(calls@ + calls_from(j as int) =~= calls_from(j as int));
    while j > 0
        invariant
            calls@ + calls_from(j as int) == calls_from(*i as int),
        decreases j,
    {
        let ghost before = calls@;
        match (j % 3, j % 5) {
            (0, 0) => calls.push((j, Word::FizzBuzz)),
            (0, _) => calls.push((j, Word::Fizz)),
            (_, 0) => calls.push((j, Word::Buzz)),
            (_, _) => {},
        }
        assert(calls@ + calls_from(j - 1) =~= before + calls_from(j as int));
        j = j - 1;
    }
    assert(calls@ + calls_from(j as int) =~= calls@);
    calls
}

} // verus!
