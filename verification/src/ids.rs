//! Identifiers made of a clock reading and a running number.
use crate::number::{hex_string, hexadecimal, law_digits_read_back};
use vstd::prelude::*;
use vstd::string::*;

verus! {

/// The identifier for a clock reading and a running number.
pub open spec fn unique_id(prefix: Seq<char>, now_ms: u64, counter: u64) -> Seq<char> {
    prefix + "_"@ + hexadecimal(now_ms as nat) + hexadecimal(counter as nat)
}

/// The identifier for a clock reading and a running number: the prefix, an underscore, and both
/// numbers in hexadecimal.
pub fn anthropic_unique_id(prefix: &str, now_ms: u64, counter: u64) -> (r: String)
    ensures
        r@ == unique_id(prefix@, now_ms, counter),
{
    let mut out = String::new();
    out.append(prefix);
    out.append("_");
    out.append(hex_string(now_ms).as_str());
    out.append(hex_string(counter).as_str());
    proof {
        assert(Seq::<char>::empty() + prefix@ =~= prefix@);
    }
    out
}

/// Where new identifiers come from: a reading of the clock, in milliseconds, and the running number
/// of the next identifier.
#[derive(Clone, Copy, Debug)]
pub struct IdSource {
    pub now_ms: u64,
    pub counter: u64,
}

impl IdSource {
    /// The next identifier.
    pub open spec fn id(self, prefix: Seq<char>) -> Seq<char> {
        unique_id(prefix, self.now_ms, self.counter)
    }

    /// The source after one more identifier; the running number starts over after the largest.
    pub open spec fn next(self) -> IdSource {
        IdSource {
            now_ms: self.now_ms,
            counter: if self.counter == u64::MAX {
                0
            } else {
                (self.counter + 1) as u64
            },
        }
    }

    /// The next identifier; the running number goes up by one.
    pub fn take_id(&mut self, prefix: &str) -> (r: String)
        ensures
            r@ == old(self).id(prefix@),
            *final(self) == old(self).next(),
    {
        let id = anthropic_unique_id(prefix, self.now_ms, self.counter);
        self.counter = if self.counter == 0xffff_ffff_ffff_ffff {
            0
        } else {
            self.counter + 1
        };
        id
    }
}

/// Two identifiers with one prefix are the same only where their clock readings and their running
/// numbers are, for readings that take equally many digits: those of any one time and long after.
pub proof fn law_ids_differ(prefix: Seq<char>, first_ms: u64, a: u64, second_ms: u64, b: u64)
    requires
        hexadecimal(first_ms as nat).len() == hexadecimal(second_ms as nat).len(),
        unique_id(prefix, first_ms, a) == unique_id(prefix, second_ms, b),
    ensures
        first_ms == second_ms,
        a == b,
{
    let start = (prefix + "_"@).len() as int;
    let end = start + hexadecimal(first_ms as nat).len();
    let first = unique_id(prefix, first_ms, a);
    let second = unique_id(prefix, second_ms, b);
    assert(first.subrange(start, end) =~= hexadecimal(first_ms as nat));
    assert(second.subrange(start, end) =~= hexadecimal(second_ms as nat));
    assert(first.skip(end) =~= hexadecimal(a as nat));
    assert(second.skip(end) =~= hexadecimal(b as nat));
    law_digits_read_back(first_ms as nat, 16);
    law_digits_read_back(second_ms as nat, 16);
    law_digits_read_back(a as nat, 16);
    law_digits_read_back(b as nat, 16);
}

/// An identifier begins with its prefix; the next one from the same source, with that prefix, is
/// another.
pub proof fn law_ids_follow_each_other(prefix: Seq<char>, ids: IdSource)
    ensures
        ids.id(prefix).len() > prefix.len(),
        ids.id(prefix).take(prefix.len() as int) == prefix,
        ids.id(prefix)[prefix.len() as int] == '_',
        ids.next().id(prefix) != ids.id(prefix),
{
    reveal_strlit("_");
    assert(ids.id(prefix).take(prefix.len() as int) =~= prefix);
    if ids.next().id(prefix) == ids.id(prefix) {
        law_ids_differ(prefix, ids.now_ms, ids.counter, ids.now_ms, ids.next().counter);
    }
}

} // verus!
