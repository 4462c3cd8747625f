//! How many pages are fetched at a time.

use vstd::prelude::*;

verus! {

/// The larger of two numbers.
pub open spec fn larger(a: int, b: int) -> int {
    if a >= b {
        a
    } else {
        b
    }
}

/// The number of permits on a machine with `logical` and `physical` CPUs.
///
/// Where there are as many of one kind as of the other it is their product, and at least 50.
/// Else it is at least 25: four for each logical CPU, or, where these are the more, four for
/// each logical CPU that a physical one has.
pub open spec fn permits(logical: int, physical: int) -> int {
    if logical == physical {
        larger(logical * physical, 50)
    } else if logical > physical {
        larger(logical / physical * 4, 25)
    } else {
        larger(logical * 4, 25)
    }
}

/// `num_cpus::get`: the number of logical CPUs that are available. It is documented to be at
/// least 1; what else it is depends on the machine.
#[verifier::external_body]
fn logical_cpus() -> (n: usize)
    ensures
        n >= 1,
{
    num_cpus::get()
}

/// `num_cpus::get_physical`: the number of physical cores. It is documented to be at least 1;
/// what else it is depends on the machine.
#[verifier::external_body]
fn physical_cpus() -> (n: usize)
    ensures
        n >= 1,
{
    num_cpus::get_physical()
}

/// `n` is what the query for the logical CPUs of this machine gave.
pub closed spec fn counts_logical(n: usize) -> bool {
    call_ensures(logical_cpus, (), n)
}

/// `n` is what the query for the physical CPUs of this machine gave.
pub closed spec fn counts_physical(n: usize) -> bool {
    call_ensures(physical_cpus, (), n)
}

/// The number of permits on a machine with `logical` and `physical` CPUs; none if it does not fit.
pub fn fitting_limit(logical: usize, physical: usize) -> (limit: Option<usize>)
    requires
        logical > physical ==> physical > 0,
    ensures
        match limit {
            Some(limit) => limit == permits(logical as int, physical as int),
            None => permits(logical as int, physical as int) > usize::MAX,
        },
{
    let share: usize = if logical > physical {
        logical / physical
    } else {
        logical
    };
    let (factor, least): (usize, usize) = if logical == physical {
        (physical, 50)
    } else {
        (4, 25)
    };
    match share.checked_mul(factor) {
        Some(limit) => if limit >= least {
            Some(limit)
        } else {
            Some(least)
        },
        None => None,
    }
}

/// What `count` counts.
fn counted<F: Fn() -> usize>(count: F) -> (n: usize)
    requires
        call_requires(count, ()),
    ensures
        call_ensures(count, (), n),
{
    count()
}

/// The number of permits on this machine, with the logical and physical CPUs that are counted on
/// it; none if it does not fit.
pub fn host_semaphore_limit() -> (limit: Option<usize>)
    ensures
        exists|logical: usize, physical: usize|
            {
                &&& #[trigger] counts_logical(logical)
                &&& #[trigger] counts_physical(physical)
                &&& logical >= 1
                &&& physical >= 1
                &&& match limit {
                    Some(limit) => limit == permits(logical as int, physical as int),
                    None => permits(logical as int, physical as int) > usize::MAX,
                }
            },
{
    let logical: usize = counted(logical_cpus);
    let physical: usize = counted(physical_cpus);
    assert(counts_logical(logical) && counts_physical(physical));
    fitting_limit(logical, physical)
}

} // verus!
