//! Running a kernel by name, with a library chosen by name.

use crate::digits_of_e::{calculate, euler_digits};
use crate::fib::{calculate_decimal, calculate_hex, fib_decimal, fib_hex};
use crate::number::Number;
use std::time::{Duration, Instant};
use vstd::prelude::*;

verus! {

/// `std::time::Instant`, of which the verifier sees nothing but the name.
#[verifier::external_type_specification]
#[verifier::external_body]
pub struct ExInstant(Instant);

/// `Instant::now`: a reading of the clock. Nothing is known of it.
#[verifier::external_body]
fn clock_now() -> Instant {
    Instant::now()
}

/// `Instant::elapsed`: the time since the reading was taken. Nothing is known
/// of it.
#[verifier::external_body]
fn clock_elapsed(start: &Instant) -> Duration {
    start.elapsed()
}

/// `==` on `str`: whether the two hold the same characters.
#[verifier::external_body]
fn str_eq(a: &str, b: &str) -> (r: bool)
    ensures
        r == (a@ == b@),
{
    a == b
}

/// Whether `task` names a task: `e`, `fib` or `fib_hex`.
pub open spec fn is_task(task: Seq<char>) -> bool {
    task == "e"@ || task == "fib"@ || task == "fib_hex"@
}

/// Whether `lib` names a library: `ibig`, `num-bigint`, `rug`, `malachite` or
/// `dashu`.
pub open spec fn is_library(lib: Seq<char>) -> bool {
    lib == "ibig"@ || lib == "num-bigint"@ || lib == "rug"@ || lib == "malachite"@ || lib
        == "dashu"@
}

/// Whether the task can be run on `n`: the digits of e are counted from one.
pub open spec fn task_accepts(task: Seq<char>, n: nat) -> bool {
    is_task(task) && (task == "e"@ ==> n >= 1)
}

/// The answer of a task: `n` digits of e, or the `n`-th Fibonacci number in
/// decimal or in hexadecimal. It does not depend on the library.
pub open spec fn task_answer(task: Seq<char>, n: nat) -> Seq<char> {
    if task == "e"@ {
        euler_digits(n)
    } else if task == "fib"@ {
        fib_decimal(n)
    } else {
        fib_hex(n)
    }
}

/// Whether `lib` names a library.
pub fn knows_library(lib: &str) -> (r: bool)
    ensures
        r == is_library(lib@),
{
    str_eq(lib, "ibig") || str_eq(lib, "num-bigint") || str_eq(lib, "rug") || str_eq(
        lib,
        "malachite",
    ) || str_eq(lib, "dashu")
}

/// Whether `task` names a task that can be run on `n`.
pub fn accepts_task(task: &str, n: u32) -> (r: bool)
    ensures
        r == task_accepts(task@, n as nat),
{
    if str_eq(task, "e") {
        n >= 1
    } else {
        str_eq(task, "fib") || str_eq(task, "fib_hex")
    }
}

/// Runs the task `iter` times with the arithmetic of `T`. Returns the answer
/// and the time that all the runs took together.
///
/// Every run gives the same answer, so the first is the one returned.
pub fn run_task_using<T: Number>(task: &str, n: u32, iter: u32) -> (r: (String, Duration))
    requires
        task_accepts(task@, n as nat),
        iter >= 1,
    ensures
        r.0@ == task_answer(task@, n as nat),
{
    let mut answer: Option<String> = None;
    let start_time = clock_now();
    let mut done: u32 = 0;
    while done < iter
        invariant
            done <= iter,
            task_accepts(task@, n as nat),
            done == 0 ==> answer is None,
            done > 0 ==> answer is Some && answer->0@ == task_answer(task@, n as nat),
        decreases iter - done,
    {
        let a = if str_eq(task, "e") {
            calculate::<T>(n)
        } else if str_eq(task, "fib") {
            calculate_decimal::<T>(n)
        } else {
            calculate_hex::<T>(n)
        };
        match &answer {
            None => {
                answer = Some(a);
            },
            Some(ans) => {
                assert(a@ == ans@);
            },
        }
        done = done + 1;
    }
    let time = clock_elapsed(&start_time);
    (answer.unwrap(), time)
}

/// Runs the task `iter` times with the library that `lib` names.
pub fn run_task(lib: &str, task: &str, n: u32, iter: u32) -> (r: (String, Duration))
    requires
        is_library(lib@),
        task_accepts(task@, n as nat),
        iter >= 1,
    ensures
        r.0@ == task_answer(task@, n as nat),
{
    if str_eq(lib, "ibig") {
        run_task_using::<ibig::UBig>(task, n, iter)
    } else if str_eq(lib, "num-bigint") {
        run_task_using::<num_bigint::BigUint>(task, n, iter)
    } else if str_eq(lib, "rug") {
        run_task_using::<rug::Integer>(task, n, iter)
    } else if str_eq(lib, "malachite") {
        run_task_using::<malachite::natural::Natural>(task, n, iter)
    } else {
        run_task_using::<dashu::Natural>(task, n, iter)
    }
}

/// Runs the task once with each library in turn. Returns the answer of the
/// first, if there is one, and for each library whether its answer is that of
/// the first: it always is.
pub fn compare_libraries(libs: &Vec<&str>, task: &str, n: u32) -> (r: (Option<String>, Vec<bool>))
    requires
        forall|i: int| 0 <= i < libs@.len() ==> is_library(#[trigger] libs@[i]@),
        task_accepts(task@, n as nat),
    ensures
        r.0 is Some <==> libs@.len() > 0,
        r.0 is Some ==> r.0->0@ == task_answer(task@, n as nat),
        r.1@.len() == libs@.len(),
        forall|i: int| 0 <= i < r.1@.len() ==> #[trigger] r.1@[i],
{
    let mut answer: Option<String> = None;
    let mut agrees: Vec<bool> = Vec::new();
    let mut i: usize = 0;
    while i < libs.len()
        invariant
            i <= libs@.len(),
            forall|j: int| 0 <= j < libs@.len() ==> is_library(#[trigger] libs@[j]@),
            task_accepts(task@, n as nat),
            answer is Some <==> i > 0,
            answer is Some ==> answer->0@ == task_answer(task@, n as nat),
            agrees@.len() == i,
            forall|j: int| 0 <= j < i ==> #[trigger] agrees@[j],
        decreases libs@.len() - i,
    {
        let (a, _) = run_task(libs[i], task, n, 1);
        match &answer {
            None => {
                agrees.push(true);
                answer = Some(a);
            },
            Some(ans) => {
                agrees.push(*ans == a);
            },
        }
        i = i + 1;
    }
    (answer, agrees)
}

/// Two answers to one task on one input are the same string, whichever
/// libraries gave them and whenever.
pub proof fn lemma_answers_agree(task: Seq<char>, n: nat, first: Seq<char>, second: Seq<char>)
    requires
        first == task_answer(task, n),
        second == task_answer(task, n),
    ensures
        first == second,
{
}

} // verus!
