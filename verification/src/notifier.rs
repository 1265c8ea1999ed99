//! The UI notifier: turns the first discovered port into a single
//! navigation directive for the UI layer, and never fires again.
//!
//! The directive carries the loopback URL for the discovered port and
//! the settle delay the UI layer should wait before navigating.  The
//! delay is a heuristic guard against the child announcing readiness a
//! moment before its listener accepts connections; its duration is
//! configurable and not load-bearing.  Performing the wait and the
//! navigation — or dropping the directive when no UI is attached — is
//! the caller's affair.

use vstd::prelude::*;
use vstd::string::StringExecFns;

verus! {

/// The settle delay used when none is chosen, in milliseconds.
pub const DEFAULT_SETTLE_MILLIS: u64 = 300;

/// The character of a single decimal digit value.
pub open spec fn digit_char(d: int) -> char {
    if d == 0 {
        '0'
    } else if d == 1 {
        '1'
    } else if d == 2 {
        '2'
    } else if d == 3 {
        '3'
    } else if d == 4 {
        '4'
    } else if d == 5 {
        '5'
    } else if d == 6 {
        '6'
    } else if d == 7 {
        '7'
    } else if d == 8 {
        '8'
    } else {
        '9'
    }
}

/// The decimal digits of `n`, most significant first, without leading
/// zeros (`0` itself is the single digit `0`).
pub open spec fn decimal_chars(n: nat) -> Seq<char>
    decreases n,
{
    if n < 10 {
        seq![digit_char(n as int)]
    } else {
        decimal_chars(n / 10).push(digit_char((n % 10) as int))
    }
}

/// The URL the UI layer is directed to: the loopback host followed by
/// the discovered port.
pub open spec fn loopback_url(port: u16) -> Seq<char> {
    "http://127.0.0.1:"@ + decimal_chars(port as nat)
}

/// The one-character string of a decimal digit value.
fn digit_str(d: u16) -> (r: &'static str)
    requires
        d < 10,
    ensures
        r@ == seq![digit_char(d as int)],
{
    proof {
        reveal_strlit("0");
        reveal_strlit("1");
        reveal_strlit("2");
        reveal_strlit("3");
        reveal_strlit("4");
        reveal_strlit("5");
        reveal_strlit("6");
        reveal_strlit("7");
        reveal_strlit("8");
        reveal_strlit("9");
    }
    let r = match d {
        0 => "0",
        1 => "1",
        2 => "2",
        3 => "3",
        4 => "4",
        5 => "5",
        6 => "6",
        7 => "7",
        8 => "8",
        _ => "9",
    };
    proof {
        assert(r@ =~= seq![digit_char(d as int)]);
    }
    r
}

/// Appends the decimal digits of `n` to `out`.
fn append_decimal(out: &mut String, n: u16)
    ensures
        final(out)@ == old(out)@ + decimal_chars(n as nat),
    decreases n,
{
    if n < 10 {
        out.append(digit_str(n));
    } else {
        append_decimal(out, n / 10);
        out.append(digit_str(n % 10));
        proof {
            assert(old(out)@ + decimal_chars(n as nat) =~= old(out)@ + decimal_chars(
                (n / 10) as nat,
            ) + seq![digit_char((n % 10) as int)]);
        }
    }
}

/// The loopback URL for a port, as a string.
pub fn loopback_url_string(port: u16) -> (s: String)
    ensures
        s@ == loopback_url(port),
{
    let mut s = String::from_str("http://127.0.0.1:");
    append_decimal(&mut s, port);
    s
}

/// A one-time instruction for the UI layer: wait `settle_millis`, then
/// navigate to `url`.
pub struct NavDirective {
    pub url: String,
    pub settle_millis: u64,
}

/// Issues the navigation directive for the first port it is given and
/// swallows every later call: at most one directive per instance.
pub struct UiNotifier {
    fired: bool,
    settle_millis: u64,
}

impl UiNotifier {
    /// Whether the notifier has already fired.
    pub closed spec fn has_fired(&self) -> bool {
        self.fired
    }

    /// The settle delay this notifier hands out, in milliseconds.
    pub closed spec fn settle(&self) -> u64 {
        self.settle_millis
    }

    /// A notifier with the usual settle delay.
    pub fn new() -> (n: UiNotifier)
        ensures
            !n.has_fired(),
            n.settle() == DEFAULT_SETTLE_MILLIS,
    {
        UiNotifier { fired: false, settle_millis: DEFAULT_SETTLE_MILLIS }
    }

    /// A notifier with a chosen settle delay.
    pub fn with_settle_millis(settle_millis: u64) -> (n: UiNotifier)
        ensures
            !n.has_fired(),
            n.settle() == settle_millis,
    {
        UiNotifier { fired: false, settle_millis }
    }

    /// Hands out the navigation directive for `port` on the first call
    /// and nothing on every later one.
    pub fn notify(&mut self, port: u16) -> (d: Option<NavDirective>)
        ensures
            final(self).has_fired(),
            final(self).settle() == old(self).settle(),
            old(self).has_fired() ==> d is None,
            !old(self).has_fired() ==> (d matches Some(dir) && dir.url@ == loopback_url(port)
                && dir.settle_millis == old(self).settle()),
    {
        if self.fired {
            None
        } else {
            self.fired = true;
            Some(NavDirective { url: loopback_url_string(port), settle_millis: self.settle_millis })
        }
    }
}

} // verus!
