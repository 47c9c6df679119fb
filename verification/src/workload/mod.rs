pub mod workload_broadcast;
pub mod workload_echo;
pub mod workload_generate;
pub mod kv;
pub mod kafka_request;
pub mod workload_gcounter;
pub mod workload_kafka;

use vstd::prelude::*;

verus! {

/// Why a workload refused a request.
#[derive(Debug, Clone, Copy, PartialEq, Eq)]
pub enum WorkloadError {
    /// The workload does not serve this kind of request.
    Unsupported,
}

/// The text of each string, in order.
pub open spec fn names(v: Seq<String>) -> Seq<Seq<char>> {
    v.map_values(|s: String| s@)
}

/// Whether `v` holds a string with the text of `name`.
pub fn contains_name(v: &Vec<String>, name: &String) -> (b: bool)
    ensures
        b == names(v@).contains(name@),
{
    let mut i: usize = 0;
    while i < v.len()
        invariant
            i <= v.len(),
            forall|j: int| 0 <= j < i ==> v@[j]@ != name@,
        decreases v.len() - i,
    {
        if v[i] == *name {
            assert(names(v@)[i as int] == name@);
            return true;
        }
        i = i + 1;
    }
    assert forall|j: int| 0 <= j < names(v@).len() implies names(v@)[j] != name@ by {
        assert(names(v@)[j] == v@[j]@);
    }
    false
}

} // verus!
