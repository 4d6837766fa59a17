use vstd::prelude::*;
use vstd::string::StringExecFns;

verus! {

/// The decimal digit character for `d`.
pub open spec fn digit_char(d: nat) -> char
    recommends
        d < 10,
{
    if d == 0 {
        '0'
    } else if d == 1 {
        '1'
    } else if d == 2 {
        '2'
    } else if d == 3 {
        '3'
    } else if d == 4 {
        '4'
    } else if d == 5 {
        '5'
    } else if d == 6 {
        '6'
    } else if d == 7 {
        '7'
    } else if d == 8 {
        '8'
    } else {
        '9'
    }
}

/// The decimal rendering of `n`: most significant digit first, with no
/// leading zeros except for zero itself.
pub open spec fn decimal_of(n: nat) -> Seq<char>
    decreases n,
{
    if n < 10 {
        seq![digit_char(n)]
    } else {
        decimal_of(n / 10) + seq![digit_char(n % 10)]
    }
}

fn digit_str(d: u64) -> (r: &'static str)
    requires
        d < 10,
    ensures
        r@ == seq![digit_char(d as nat)],
{
    let r: &'static str = if d == 0 {
        "0"
    } else if d == 1 {
        "1"
    } else if d == 2 {
        "2"
    } else if d == 3 {
        "3"
    } else if d == 4 {
        "4"
    } else if d == 5 {
        "5"
    } else if d == 6 {
        "6"
    } else if d == 7 {
        "7"
    } else if d == 8 {
        "8"
    } else {
        "9"
    };
    proof {
        reveal_strlit("0");
        reveal_strlit("1");
        reveal_strlit("2");
        reveal_strlit("3");
        reveal_strlit("4");
        reveal_strlit("5");
        reveal_strlit("6");
        reveal_strlit("7");
        reveal_strlit("8");
        reveal_strlit("9");
        assert(r@ =~= seq![digit_char(d as nat)]);
    }
    r
}

/// The decimal rendering of a seconds count.
pub fn decimal_string(n: u64) -> (r: String)
    ensures
        r@ == decimal_of(n as nat),
    decreases n,
{
    if n < 10 {
        digit_str(n).to_owned()
    } else {
        assert(n / 10 < n) by (nonlinear_arith)
            requires n >= 10;
        let mut s = decimal_string(n / 10);
        s.append(digit_str(n % 10));
        s
    }
}

/// One entry joined onto the prior content: the prior text, a separating
/// newline, the rendered seconds count, ` - `, the message, and a trailing
/// newline.  The separator is inserted whether or not the prior text already
/// ends in a newline, so a second entry is preceded by a blank line.
pub open spec fn appended_content(current: Seq<char>, seconds: nat, message: Seq<char>) -> Seq<char> {
    current + seq!['\n'] + decimal_of(seconds) + seq![' ', '-', ' '] + message + seq!['\n']
}

/// Law: appending keeps the prior content as an unchanged prefix and
/// strictly lengthens the file, so no existing entry is ever reordered or
/// removed.
pub proof fn lemma_append_preserves_prefix(current: Seq<char>, seconds: nat, message: Seq<char>)
    ensures
        appended_content(current, seconds, message).len() > current.len(),
        appended_content(current, seconds, message).subrange(0, current.len() as int) == current,
{
    assert(appended_content(current, seconds, message).subrange(0, current.len() as int)
        =~= current);
}

/// Builds the whole new file content carrying one appended entry.
pub fn build_entry(current: &str, seconds: u64, message: &str) -> (r: String)
    ensures
        r@ == appended_content(current@, seconds as nat, message@),
{
    let mut s = current.to_owned();
    s.append("\n");
    let ts = decimal_string(seconds);
    s.append(ts.as_str());
    s.append(" - ");
    s.append(message);
    s.append("\n");
    proof {
        reveal_strlit("\n");
        reveal_strlit(" - ");
        assert(s@ =~= appended_content(current@, seconds as nat, message@));
    }
    s
}

/// Relies on `std::time::SystemTime`: the system clock's distance from the
/// epoch in whole seconds, or `None` when the clock reads earlier than the
/// epoch.  Nothing is assumed of the value returned.
#[verifier::external_body]
pub(crate) fn now_seconds() -> Option<u64> {
    match std::time::SystemTime::now().duration_since(std::time::SystemTime::UNIX_EPOCH) {
        Ok(d) => Some(d.as_secs()),
        Err(_) => None,
    }
}

} // verus!
