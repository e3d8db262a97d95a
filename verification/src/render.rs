//! A roll as text: its entries joined by ` + `, then ` = ` and their sum.

use crate::decimal::{decimal, push_decimal};
use crate::roll::{total, Rolls};
use vstd::prelude::*;
use vstd::string::StringExecFns;

verus! {

/// The entries of `rolls` in base ten with ` + ` between them.
pub open spec fn joined(rolls: Seq<usize>) -> Seq<char>
    decreases rolls.len(),
{
    if rolls.len() == 0 {
        Seq::empty()
    } else if rolls.len() == 1 {
        decimal(rolls[0] as nat)
    } else {
        joined(rolls.drop_last()) + seq![' ', '+', ' '] + decimal(rolls.last() as nat)
    }
}

/// The text of `rolls`: its entries joined by ` + `, then ` = ` and their sum.
pub open spec fn rendered(rolls: Seq<usize>) -> Seq<char> {
    joined(rolls) + seq![' ', '=', ' '] + decimal(total(rolls))
}

impl Rolls {
    /// The roll as text: `3 + 5 + 1 = 9`.
    pub fn render(&self) -> (text: String)
        ensures
            text@ == rendered(self.0@),
    {
        let mut text = String::new();
        let mut i: usize = 0;
        while i < self.0.len()
            invariant
                i <= self.0@.len(),
                text@ == joined(self.0@.take(i as int)),
            decreases self.0@.len() - i,
        {
            proof {
                reveal_strlit(" + ");
                assert(self.0@.take(i + 1).drop_last() == self.0@.take(i as int));
            }
            if i > 0 {
                text.append(" + ");
            }
            push_decimal(&mut text, self.0[i] as u128);
            i += 1;
        }
        proof {
            reveal_strlit(" = ");
            assert(self.0@.take(i as int) == self.0@);
        }
        text.append(" = ");
        push_decimal(&mut text, self.sum());
        text
    }
}

} // verus!
