//! The text shown on the scoreboard.

use crate::model::World;
use vstd::prelude::*;
use vstd::string::StringExecFns;

verus! {

/// The character for the decimal digit `d`.
pub open spec fn digit(d: nat) -> char {
    if d == 0 {
        '0'
    } else if d == 1 {
        '1'
    } else if d == 2 {
        '2'
    } else if d == 3 {
        '3'
    } else if d == 4 {
        '4'
    } else if d == 5 {
        '5'
    } else if d == 6 {
        '6'
    } else if d == 7 {
        '7'
    } else if d == 8 {
        '8'
    } else {
        '9'
    }
}

/// The number `n` written in decimal digits, without leading zeros.
pub open spec fn decimal(n: nat) -> Seq<char>
    decreases n,
{
    if n < 10 {
        seq![digit(n)]
    } else {
        decimal(n / 10).push(digit(n % 10))
    }
}

/// The digits of `tail` as characters, the last digit first.
spec fn spelled_back(tail: Seq<u8>) -> Seq<char>
    decreases tail.len(),
{
    if tail.len() == 0 {
        Seq::empty()
    } else {
        seq![digit(tail.last() as nat)] + spelled_back(tail.drop_last())
    }
}

fn digit_text(d: u8) -> (text: &'static str)
    requires
        d < 10,
    ensures
        text@ == seq![digit(d as nat)],
{
    proof {
        reveal_strlit("0");
        reveal_strlit("1");
        reveal_strlit("2");
        reveal_strlit("3");
        reveal_strlit("4");
        reveal_strlit("5");
        reveal_strlit("6");
        reveal_strlit("7");
        reveal_strlit("8");
        reveal_strlit("9");
    }
    let text: &'static str = if d == 0 {
        "0"
    } else if d == 1 {
        "1"
    } else if d == 2 {
        "2"
    } else if d == 3 {
        "3"
    } else if d == 4 {
        "4"
    } else if d == 5 {
        "5"
    } else if d == 6 {
        "6"
    } else if d == 7 {
        "7"
    } else if d == 8 {
        "8"
    } else {
        "9"
    };
    assert(text@ =~= seq![digit(d as nat)]);
    text
}

/// Writes the score as it is shown on the scoreboard: in decimal digits.
pub fn update_score(world: &World) -> (text: String)
    ensures
        text@ == decimal(world.game_state.score as nat),
{
    let score: u64 = world.game_state.score;
    let mut rest: u64 = score;
    let mut tail: Vec<u8> = Vec::new();
    while rest >= 10
        invariant
            decimal(score as nat) == decimal(rest as nat) + spelled_back(tail@),
            forall|j: int| 0 <= j < tail.len() ==> tail[j] < 10,
        decreases rest,
    {
        let low: u8 = (rest % 10) as u8;
        proof {
            let longer = tail@.push(low);
            assert(longer.drop_last() =~= tail@);
            assert(spelled_back(longer) == seq![digit(low as nat)] + spelled_back(tail@));
            assert(decimal(rest as nat) == decimal((rest / 10) as nat).push(digit(low as nat)));
            assert(decimal((rest / 10) as nat).push(digit(low as nat)) + spelled_back(tail@)
                =~= decimal((rest / 10) as nat) + spelled_back(longer));
        }
        tail.push(low);
        rest = rest / 10;
    }
    let mut text: String = String::from_str(digit_text(rest as u8));
    let mut i: usize = tail.len();
    proof {
        assert(tail@.take(i as int) =~= tail@);
    }
    while i > 0
        invariant
            i <= tail.len(),
            forall|j: int| 0 <= j < tail.len() ==> tail[j] < 10,
            text@ + spelled_back(tail@.take(i as int)) == decimal(score as nat),
        decreases i,
    {
        proof {
            let head = tail@.take(i as int);
            assert(head.drop_last() =~= tail@.take(i - 1));
            assert(head.last() == tail@[i - 1]);
            assert((text@ + seq![digit(tail@[i - 1] as nat)]) + spelled_back(tail@.take(i - 1))
                =~= text@ + spelled_back(head));
        }
        i -= 1;
        text.append(digit_text(tail[i]));
    }
    proof {
        assert(text@ + spelled_back(tail@.take(0)) =~= text@);
    }
    text
}

} // verus!
