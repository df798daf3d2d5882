//! Totalling the sizes of a directory's files.
//!
//! The directory walk and the size probes are the surrounding
//! application's work; the total is computed here, rejecting a sum that
//! would not fit the counter instead of wrapping.

use vstd::prelude::*;
use vstd::string::StringExecFns;
use crate::s3::spec_u64_sum;

verus! {

/// Every part of a size sum is non-negative, so a prefix never exceeds
/// the whole.
proof fn lemma_u64_sum_prefix(s: Seq<u64>, i: int)
    requires
        0 <= i <= s.len(),
    ensures
        spec_u64_sum(s.take(i)) <= spec_u64_sum(s),
    decreases s.len() - i,
{
    if i < s.len() {
        lemma_u64_sum_prefix(s, i + 1);
        assert(s.take(i + 1).drop_last() =~= s.take(i));
    } else {
        assert(s.take(i) =~= s);
    }
}

/// The total of the given file sizes, or an error when it cannot be
/// represented.
pub fn get_file_size(sizes: &Vec<u64>) -> (r: Result<u64, String>)
    ensures
        match r {
            Ok(total) => total == spec_u64_sum(sizes@),
            Err(m) => spec_u64_sum(sizes@) > u64::MAX && m@ == "Directory size overflows"@,
        },
{
    let n = sizes.len();
    let mut total: u64 = 0;
    let mut i: usize = 0;
    while i < n
        invariant
            n == sizes@.len(),
            i <= n,
            total == spec_u64_sum(sizes@.take(i as int)),
        decreases n - i,
    {
        let x = sizes[i];
        proof {
            assert(sizes@.take(i as int + 1).drop_last() =~= sizes@.take(i as int));
        }
        if x > u64::MAX - total {
            proof {
                lemma_u64_sum_prefix(sizes@, i as int + 1);
            }
            return Err(String::from_str("Directory size overflows"));
        }
        total = total + x;
        i = i + 1;
    }
    proof {
        assert(sizes@.take(n as int) =~= sizes@);
    }
    Ok(total)
}

} // verus!
