use vstd::prelude::*;

verus! {

/// The conversion of a type into itself, `std::convert::From::from` of its blanket
/// implementation. Taken on trust is what its documentation says: the argument comes back
/// unchanged.
pub assume_specification<A>[ <A as std::convert::From<A>>::from ](value: A) -> (result: A)
    ensures
        result == value,
;

/// The difference of two numbers, or zero where the second is the greater one.
#[inline(always)]
pub fn unsigned_subtract<T>(lhs: T, rhs: T) -> (difference: T) where
    T: PartialEq + PartialOrd + std::ops::Sub<Output = T> + From<u64>,

    requires
        forall|less: bool|
            #[trigger] call_ensures(T::lt, (&lhs, &rhs), less) && !less ==> call_requires(
                T::sub,
                (lhs, rhs),
            ),
    ensures
        exists|less: bool| #[trigger]
            call_ensures(T::lt, (&lhs, &rhs), less) && if less {
                call_ensures(T::from, (0u64,), difference)
            } else {
                call_ensures(T::sub, (lhs, rhs), difference)
            },
{
    if lhs < rhs {
        T::from(0u64)
    } else {
        lhs - rhs
    }
}

/// How long a node waits for the next message: a leader until its next round of
/// heartbeats, any other node until it gives its leader up.
#[inline]
pub fn get_current_timeout(
    remaining_heartbeat_interval: u64,
    remaining_election_timeout: u64,
    leader: bool,
) -> (timeout: u64)
    ensures
        timeout == if leader {
            remaining_heartbeat_interval
        } else {
            remaining_election_timeout
        },
{
    if leader {
        // for leader, there's no election timeout
        remaining_heartbeat_interval
    } else {
        remaining_election_timeout
    }
}

} // verus!
