//! Text pieces of the human-readable views: decimal numbers, seconds with
//! two decimals, truncation and padding.
use vstd::prelude::*;

verus! {

pub open spec fn digit_char(d: nat) -> char {
    if d == 0 {
        '0'
    } else if d == 1 {
        '1'
    } else if d == 2 {
        '2'
    } else if d == 3 {
        '3'
    } else if d == 4 {
        '4'
    } else if d == 5 {
        '5'
    } else if d == 6 {
        '6'
    } else if d == 7 {
        '7'
    } else if d == 8 {
        '8'
    } else {
        '9'
    }
}

/// `n` written in decimal, without leading zeros.
pub open spec fn decimal_text(n: nat) -> Seq<char>
    decreases n,
{
    if n < 10 {
        seq![digit_char(n)]
    } else {
        decimal_text(n / 10).push(digit_char(n % 10))
    }
}

/// A duration in milliseconds as seconds with two decimals, rounded half up.
pub open spec fn seconds_text(ms: u64) -> Seq<char> {
    let centis = (ms as nat + 5) / 10;
    decimal_text(centis / 100) + seq!['.', digit_char((centis % 100) / 10), digit_char(centis % 10)]
}

/// The first `n` characters of `s`.
pub open spec fn prefix_text(s: Seq<char>, n: nat) -> Seq<char> {
    if s.len() <= n {
        s
    } else {
        s.subrange(0, n as int)
    }
}

/// `s` followed by spaces up to a width of `w` characters.
pub open spec fn padded(s: Seq<char>, w: nat) -> Seq<char> {
    if s.len() >= w {
        s
    } else {
        s + Seq::new((w - s.len()) as nat, |i: int| ' ')
    }
}

fn digit_str(d: u64) -> (r: &'static str)
    requires
        d < 10,
    ensures
        r@ == seq![digit_char(d as nat)],
{
    proof {
        reveal_strlit("0");
        reveal_strlit("1");
        reveal_strlit("2");
        reveal_strlit("3");
        reveal_strlit("4");
        reveal_strlit("5");
        reveal_strlit("6");
        reveal_strlit("7");
        reveal_strlit("8");
        reveal_strlit("9");
    }
    let r = if d == 0 {
        "0"
    } else if d == 1 {
        "1"
    } else if d == 2 {
        "2"
    } else if d == 3 {
        "3"
    } else if d == 4 {
        "4"
    } else if d == 5 {
        "5"
    } else if d == 6 {
        "6"
    } else if d == 7 {
        "7"
    } else if d == 8 {
        "8"
    } else {
        "9"
    };
    assert(r@ =~= seq![digit_char(d as nat)]);
    r
}

/// Appends `n` in decimal.
pub fn push_decimal(out: &mut String, n: u64)
    ensures
        final(out)@ == old(out)@ + decimal_text(n as nat),
    decreases n,
{
    if n >= 10 {
        push_decimal(out, n / 10);
    }
    let ghost mid = out@;
    out.append(digit_str(n % 10));
    proof {
        if n >= 10 {
            assert(out@ =~= old(out)@ + decimal_text(n as nat));
        } else {
            assert(out@ =~= old(out)@ + decimal_text(n as nat));
        }
    }
}

/// Appends a duration in milliseconds as seconds with two decimals.
pub fn push_seconds(out: &mut String, ms: u64)
    ensures
        final(out)@ == old(out)@ + seconds_text(ms),
{
    let centis: u64 = if ms > u64::MAX - 5 {
        (ms / 10) + if ms % 10 >= 5 {
            1
        } else {
            0
        }
    } else {
        (ms + 5) / 10
    };
    assert(centis == (ms as nat + 5) / 10);
    push_decimal(out, centis / 100);
    proof {
        reveal_strlit(".");
    }
    out.append(".");
    out.append(digit_str((centis % 100) / 10));
    out.append(digit_str(centis % 10));
    assert(out@ =~= old(out)@ + seconds_text(ms));
}

/// The first `n` characters of `s`.
pub fn truncate(s: &str, n: usize) -> (r: &str)
    ensures
        r@ == prefix_text(s@, n as nat),
{
    let len = s.unicode_len();
    if len <= n {
        s
    } else {
        s.substring_char(0, n)
    }
}

/// Appends `s` followed by spaces up to a width of `w` characters.
pub fn push_padded(out: &mut String, s: &str, w: usize)
    ensures
        final(out)@ == old(out)@ + padded(s@, w as nat),
{
    out.append(s);
    let len = s.unicode_len();
    let mut k: usize = len;
    proof {
        reveal_strlit(" ");
        assert(" "@ =~= seq![' ']);
        assert(out@ =~= old(out)@ + s@ + Seq::new(0, |i: int| ' '));
    }
    while k < w
        invariant
            len == s@.len(),
            len <= k,
            len < w ==> k <= w,
            len >= w ==> k == len,
            " "@ == seq![' '],
            out@ == old(out)@ + s@ + Seq::new((k - len) as nat, |i: int| ' '),
        decreases w - k,
    {
        out.append(" ");
        k = k + 1;
        assert(out@ =~= old(out)@ + s@ + Seq::new((k - len) as nat, |i: int| ' '));
    }
    proof {
        if len >= w {
            assert(Seq::new((k - len) as nat, |i: int| ' ') =~= Seq::<char>::empty());
            assert(out@ =~= old(out)@ + s@);
        }
        assert(out@ =~= old(out)@ + padded(s@, w as nat));
    }
}

} // verus!
