//! Text building for generated code: decimal case ordinals and
//! comma-separated argument lists.

use vstd::prelude::*;
use crate::expr::CaseArg;

verus! {

/// The decimal digit for a value below ten.
pub open spec fn digit_char(d: nat) -> char {
    if d == 0 {
        '0'
    } else if d == 1 {
        '1'
    } else if d == 2 {
        '2'
    } else if d == 3 {
        '3'
    } else if d == 4 {
        '4'
    } else if d == 5 {
        '5'
    } else if d == 6 {
        '6'
    } else if d == 7 {
        '7'
    } else if d == 8 {
        '8'
    } else {
        '9'
    }
}

/// The decimal rendering of `n`, most significant digit first.
pub open spec fn dec_rep(n: nat) -> Seq<char>
    decreases n,
{
    if n < 10 {
        seq![digit_char(n)]
    } else {
        dec_rep(n / 10).push(digit_char(n % 10))
    }
}

fn push_digit(s: &mut String, d: usize)
    requires
        d < 10,
    ensures
        final(s)@ == old(s)@ + seq![digit_char(d as nat)],
{
    proof {
        reveal_strlit("0");
        reveal_strlit("1");
        reveal_strlit("2");
        reveal_strlit("3");
        reveal_strlit("4");
        reveal_strlit("5");
        reveal_strlit("6");
        reveal_strlit("7");
        reveal_strlit("8");
        reveal_strlit("9");
    }
    if d == 0 {
        s.append("0");
    } else if d == 1 {
        s.append("1");
    } else if d == 2 {
        s.append("2");
    } else if d == 3 {
        s.append("3");
    } else if d == 4 {
        s.append("4");
    } else if d == 5 {
        s.append("5");
    } else if d == 6 {
        s.append("6");
    } else if d == 7 {
        s.append("7");
    } else if d == 8 {
        s.append("8");
    } else {
        s.append("9");
    }
    proof {
        assert(final(s)@ =~= old(s)@ + seq![digit_char(d as nat)]);
    }
}

/// Appends the decimal rendering of `n`.
pub fn push_dec(s: &mut String, n: usize)
    ensures
        final(s)@ == old(s)@ + dec_rep(n as nat),
    decreases n,
{
    if n < 10 {
        push_digit(s, n);
    } else {
        push_dec(s, n / 10);
        push_digit(s, n % 10);
        proof {
            assert(final(s)@ =~= old(s)@ + dec_rep(n as nat));
        }
    }
}

/// The comma-separated joining of expression texts, as an argument list
/// is written between parentheses.
pub open spec fn join_args(es: Seq<CaseArg>) -> Seq<char>
    decreases es.len(),
{
    if es.len() == 0 {
        Seq::empty()
    } else if es.len() == 1 {
        es[0]@
    } else {
        es[0]@ + ", "@ + join_args(es.drop_first())
    }
}

fn push_joined_from(s: &mut String, args: &Vec<CaseArg>, i: usize)
    requires
        i <= args@.len(),
    ensures
        final(s)@ == old(s)@ + join_args(args@.skip(i as int)),
    decreases args@.len() - i,
{
    if i < args.len() {
        s.append(args[i].text.as_str());
        if i + 1 < args.len() {
            s.append(", ");
            push_joined_from(s, args, i + 1);
            proof {
                assert(args@.skip(i as int).drop_first() =~= args@.skip(i + 1));
                assert(final(s)@ =~= old(s)@ + join_args(args@.skip(i as int)));
            }
        } else {
            proof {
                assert(args@.skip(i as int) =~= seq![args@[i as int]]);
                assert(final(s)@ =~= old(s)@ + join_args(args@.skip(i as int)));
            }
        }
    } else {
        proof {
            assert(args@.skip(i as int) =~= Seq::<CaseArg>::empty());
            assert(final(s)@ =~= old(s)@ + join_args(args@.skip(i as int)));
        }
    }
}

/// Appends the comma-separated texts of `args`.
pub fn push_joined(s: &mut String, args: &Vec<CaseArg>)
    ensures
        final(s)@ == old(s)@ + join_args(args@),
{
    push_joined_from(s, args, 0);
    proof {
        assert(args@.skip(0) =~= args@);
    }
}

} // verus!
