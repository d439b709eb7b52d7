//! Command-line argument lookup.

use vstd::prelude::*;

verus! {

/// `i` is the first position whose argument is `flag` and that has an
/// argument after it.
pub open spec fn first_flag_with_value(args: Seq<String>, flag: Seq<char>, i: int) -> bool {
    0 <= i && i + 1 < args.len() && args[i]@ == flag && forall|j: int|
        0 <= j < i ==> !(args[j]@ == flag && j + 1 < args.len())
}

/// The argument that follows the first occurrence of `flag` that has one.
pub fn get_arg_value(args: &Vec<String>, flag: &str) -> (r: Option<String>)
    ensures
        r is Some <==> exists|i: int| first_flag_with_value(args@, flag@, i),
        r matches Some(v) ==> exists|i: int|
            first_flag_with_value(args@, flag@, i) && v@ == args@[i + 1]@,
{
    let wanted = flag.to_owned();
    let mut i: usize = 0;
    while i < args.len()
        invariant
            0 <= i <= args.len(),
            wanted@ == flag@,
            forall|j: int| 0 <= j < i ==> !(args@[j]@ == flag@ && j + 1 < args@.len()),
        decreases args.len() - i,
    {
        if args[i] == wanted && i + 1 < args.len() {
            assert(first_flag_with_value(args@, flag@, i as int));
            return Some(args[i + 1].clone());
        }
        i += 1;
    }
    assert forall|k: int| !first_flag_with_value(args@, flag@, k) by {}
    None
}

} // verus!
