use vstd::prelude::*;
use vstd::string::StrSliceExecFns;

verus! {

/// `input` is a prefix of `s`.
pub open spec fn is_prefix(input: Seq<char>, s: Seq<char>) -> bool {
    input.len() <= s.len() && s.subrange(0, input.len() as int) == input
}

/// How many candidates the input is a prefix of.
pub open spec fn match_count(opts: Seq<String>, input: Seq<char>) -> nat
    decreases opts.len(),
{
    if opts.len() == 0 {
        0
    } else {
        match_count(opts.drop_last(), input) + (if is_prefix(input, opts.last()@) {
            1nat
        } else {
            0nat
        })
    }
}

/// Decides whether `input` starts `s`.
pub fn str_starts_with(s: &str, input: &str) -> (r: bool)
    ensures
        r == is_prefix(input@, s@),
{
    let n = input.unicode_len();
    let m = s.unicode_len();
    if n > m {
        return false;
    }
    let mut i: usize = 0;
    while i < n
        invariant
            0 <= i <= n,
            n == input@.len(),
            m == s@.len(),
            n <= m,
            forall|j: int| 0 <= j < i ==> s@[j] == input@[j],
        decreases n - i,
    {
        if s.get_char(i) != input.get_char(i) {
            proof {
                assert(s@.subrange(0, n as int)[i as int] == s@[i as int]);
            }
            return false;
        }
        i += 1;
    }
    proof {
        assert(s@.subrange(0, n as int) =~= input@);
    }
    true
}

/// The candidate identifiers offered for interactive completion.
#[derive(Debug, Clone)]
pub struct CompletionOptions(pub Vec<String>);

impl CompletionOptions {
    /// Completes the input to the unique candidate it starts, if any:
    /// `Some` exactly when precisely one candidate has the input as a
    /// prefix, and then that candidate.
    pub fn get(&self, input: &str) -> (r: Option<String>)
        ensures
            match r {
                Some(s) => match_count(self.0@, input@) == 1 && is_prefix(input@, s@) && exists|
                    i: int,
                |
                    0 <= i < self.0@.len() && (#[trigger] self.0@[i])@ == s@,
                None => match_count(self.0@, input@) != 1,
            },
    {
        let mut count: usize = 0;
        let mut best: usize = 0;
        let mut i: usize = 0;
        while i < self.0.len()
            invariant
                0 <= i <= self.0@.len(),
                count == match_count(self.0@.take(i as int), input@),
                count <= i,
                count > 0 ==> 0 <= best < i && is_prefix(input@, self.0@[best as int]@),
            decreases self.0@.len() - i,
        {
            proof {
                assert(self.0@.take(i + 1).drop_last() =~= self.0@.take(i as int));
                assert(self.0@.take(i + 1).last() == self.0@[i as int]);
            }
            if str_starts_with(self.0[i].as_str(), input) {
                count = count + 1;
                best = i;
            }
            i += 1;
        }
        proof {
            assert(self.0@.take(self.0@.len() as int) =~= self.0@);
        }
        if count == 1 {
            let s = self.0[best].clone();
            proof {
                assert((#[trigger] self.0@[best as int])@ == s@);
            }
            Some(s)
        } else {
            None
        }
    }
}

} // verus!
