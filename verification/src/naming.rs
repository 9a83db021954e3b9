//! Names for the tables that hold the description of a VCF file.

use vstd::prelude::*;
use vstd::string::*;
use crate::text::push_char;

verus! {

/// The character of a decimal digit.
pub open spec fn digit(d: int) -> char {
    if d == 0 {
        '0'
    } else if d == 1 {
        '1'
    } else if d == 2 {
        '2'
    } else if d == 3 {
        '3'
    } else if d == 4 {
        '4'
    } else if d == 5 {
        '5'
    } else if d == 6 {
        '6'
    } else if d == 7 {
        '7'
    } else if d == 8 {
        '8'
    } else {
        '9'
    }
}

/// The decimal digits of a number, without leading zeros.
pub open spec fn decimal(n: nat) -> Seq<char>
    decreases n,
{
    if n < 10 {
        seq![digit(n as int)]
    } else {
        decimal(n / 10).push(digit((n % 10) as int))
    }
}

fn digit_char(d: u32) -> (c: char)
    requires
        d < 10,
    ensures
        c == digit(d as int),
{
    if d == 0 {
        '0'
    } else if d == 1 {
        '1'
    } else if d == 2 {
        '2'
    } else if d == 3 {
        '3'
    } else if d == 4 {
        '4'
    } else if d == 5 {
        '5'
    } else if d == 6 {
        '6'
    } else if d == 7 {
        '7'
    } else if d == 8 {
        '8'
    } else {
        '9'
    }
}

/// The name of the table that holds the description of a VCF file, for the
/// given tag: `vcf_schema_` and the tag in decimal.
pub open spec fn describe_table(tag: u32) -> Seq<char> {
    "vcf_schema_"@ + decimal(tag as nat)
}

/// The name of the table that holds the description of a VCF file, for the
/// given tag.
pub fn describe_table_name(tag: u32) -> (name: String)
    ensures
        name@ == describe_table(tag),
{
    let mut reversed: Vec<char> = Vec::new();
    let mut rest: u32 = tag;
    while rest >= 10
        invariant
            decimal(tag as nat) == decimal(rest as nat) + reversed@.reverse(),
        decreases rest,
    {
        let ghost before = reversed@;
        reversed.push(digit_char(rest % 10));
        proof {
            assert(reversed@.reverse() =~= seq![digit((rest % 10) as int)] + before.reverse());
            assert(decimal(rest as nat) =~= decimal((rest / 10) as nat) + seq![
                digit((rest % 10) as int),
            ]);
        }
        rest = rest / 10;
    }
    let mut name = "vcf_schema_".to_string();
    push_char(&mut name, digit_char(rest));
    let mut i: usize = reversed.len();
    proof {
        assert(reversed@.reverse().take(0) =~= Seq::<char>::empty());
        assert(decimal(rest as nat) =~= seq![digit(rest as int)]);
        assert(name@ =~= "vcf_schema_"@ + decimal(rest as nat) + reversed@.reverse().take(0));
    }
    while i > 0
        invariant
            i <= reversed.len(),
            name@ == "vcf_schema_"@ + decimal(rest as nat) + reversed@.reverse().take(
                reversed.len() - i,
            ),
        decreases i,
    {
        i -= 1;
        let ghost before = name@;
        push_char(&mut name, reversed[i]);
        proof {
            let digits = reversed@.reverse();
            let done = reversed.len() - i - 1;
            assert(digits[done] == reversed@[i as int]);
            assert(digits.take(done).push(digits[done]) =~= digits.take(done + 1));
            assert(name@ =~= "vcf_schema_"@ + decimal(rest as nat) + digits.take(done + 1));
        }
    }
    proof {
        assert(reversed@.reverse().take(reversed.len() as int) =~= reversed@.reverse());
        assert(name@ =~= "vcf_schema_"@ + (decimal(rest as nat) + reversed@.reverse()));
    }
    name
}

/// A tag drawn at random.
///
/// This is `rand::random`, for 32 bits. Nothing is promised of the tag.
#[verifier::external_body]
fn random_tag() -> u32 {
    rand::random::<u32>()
}

/// A name for a new table that holds the description of a VCF file:
/// `vcf_schema_` and a number drawn at random.
pub fn fresh_describe_table_name() -> (name: String)
    ensures
        exists|tag: u32| name@ == describe_table(tag),
{
    let tag = random_tag();
    describe_table_name(tag)
}

} // verus!
