//! The wording of what the game tells its players.

use vstd::prelude::*;
use vstd::string::StringExecFns;

verus! {

/// The character of a decimal digit.
pub open spec fn digit_char(d: nat) -> char {
    if d == 0 {
        '0'
    } else if d == 1 {
        '1'
    } else if d == 2 {
        '2'
    } else if d == 3 {
        '3'
    } else if d == 4 {
        '4'
    } else if d == 5 {
        '5'
    } else if d == 6 {
        '6'
    } else if d == 7 {
        '7'
    } else if d == 8 {
        '8'
    } else {
        '9'
    }
}

/// `n` written in base ten, without leading zeros.
pub open spec fn decimal_digits(n: nat) -> Seq<char>
    decreases n,
{
    if n < 10 {
        seq![digit_char(n)]
    } else {
        decimal_digits(n / 10).push(digit_char(n % 10))
    }
}

/// Who fired: the computer or the human player.
pub open spec fn actor(bot: bool) -> Seq<char> {
    if bot {
        "Computer"@
    } else {
        "You"@
    }
}

/// The first sentence of a volley's report: the ships sunk if there are
/// any, else the number of hits.
pub open spec fn strike_report(kills: nat, hits: nat) -> Seq<char> {
    if kills > 0 {
        "sunk "@ + decimal_digits(kills) + " ship."@
    } else {
        decimal_digits(hits) + " hit."@
    }
}

/// The second sentence of a volley's report, present when a shot missed.
pub open spec fn miss_report(misses: nat, bot: bool) -> Seq<char> {
    if misses > 0 {
        " "@ + actor(bot) + " missed "@ + decimal_digits(misses) + "."@
    } else {
        Seq::empty()
    }
}

/// The report of a volley that sank `kills` ships, hit `hits` further cells
/// and missed `misses` times.
pub open spec fn volley_message(kills: nat, hits: nat, misses: nat, bot: bool) -> Seq<char> {
    actor(bot) + " have "@ + strike_report(kills, hits) + miss_report(misses, bot)
}

/// The one-character text of a digit.
fn digit_text(d: u64) -> (s: &'static str)
    requires
        d < 10,
    ensures
        s@ == seq![digit_char(d as nat)],
{
    proof {
        reveal_strlit("0");
        reveal_strlit("1");
        reveal_strlit("2");
        reveal_strlit("3");
        reveal_strlit("4");
        reveal_strlit("5");
        reveal_strlit("6");
        reveal_strlit("7");
        reveal_strlit("8");
        reveal_strlit("9");
    }
    let s = match d {
        0 => "0",
        1 => "1",
        2 => "2",
        3 => "3",
        4 => "4",
        5 => "5",
        6 => "6",
        7 => "7",
        8 => "8",
        _ => "9",
    };
    assert(s@ =~= seq![digit_char(d as nat)]);
    s
}

/// `n` in base ten.
pub fn decimal(n: u64) -> (s: String)
    ensures
        s@ == decimal_digits(n as nat),
    decreases n,
{
    if n < 10 {
        String::from_str(digit_text(n))
    } else {
        let mut s = decimal(n / 10);
        s.append(digit_text(n % 10));
        assert(s@ =~= decimal_digits((n / 10) as nat).push(digit_char((n % 10) as nat)));
        s
    }
}

/// The name of the side that fired.
pub fn actor_name(bot: bool) -> (s: &'static str)
    ensures
        s@ == actor(bot),
{
    if bot {
        "Computer"
    } else {
        "You"
    }
}

/// Composes the report of a volley. See [`volley_message`].
pub fn compose_message(kills: usize, hits: usize, misses: usize, bot: bool) -> (msg: String)
    ensures
        msg@ == volley_message(kills as nat, hits as nat, misses as nat, bot),
{
    let mut msg = String::from_str(actor_name(bot));
    msg.append(" have ");
    if kills > 0 {
        msg.append("sunk ");
        msg.append(decimal(kills as u64).as_str());
        msg.append(" ship.");
        assert(msg@ =~= actor(bot) + " have "@ + strike_report(kills as nat, hits as nat));
    } else {
        msg.append(decimal(hits as u64).as_str());
        msg.append(" hit.");
        assert(msg@ =~= actor(bot) + " have "@ + strike_report(kills as nat, hits as nat));
    }
    if misses > 0 {
        msg.append(" ");
        msg.append(actor_name(bot));
        msg.append(" missed ");
        msg.append(decimal(misses as u64).as_str());
        msg.append(".");
        assert(msg@ =~= volley_message(kills as nat, hits as nat, misses as nat, bot));
    } else {
        assert(msg@ =~= volley_message(kills as nat, hits as nat, misses as nat, bot));
    }
    msg
}

} // verus!
