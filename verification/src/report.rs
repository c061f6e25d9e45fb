//! The lines that a run reports: what is written at the start, before each
//! pass and after each attempt.

use crate::flags::{FlagSet, MEMORY_DEVICE_LOCAL, MEMORY_HOST_VISIBLE};
use crate::outcome::Latency;
use vstd::prelude::*;
use vstd::string::StringExecFns;

verus! {

/// The number of digits in which the nanoseconds of a latency are written.
pub const NANOS_DIGITS: u32 = 9;

/// The two passes of a run.
#[derive(Clone, Copy, Debug, PartialEq, Eq, Structural)]
pub enum PassKind {
    /// The pass on memory that the host can map.
    Host,
    /// The pass on memory that resides on the device.
    Device,
}

/// The passes of a run, in the order in which they are made: first the one on
/// host-visible memory, then the one on device-local memory.
pub open spec fn pass_sequence() -> Seq<PassKind> {
    seq![PassKind::Host, PassKind::Device]
}

/// The passes of a run, in the order in which they are made.
pub fn pass_order() -> (r: Vec<PassKind>)
    ensures
        r@ == pass_sequence(),
{
    let mut r: Vec<PassKind> = Vec::new();
    r.push(PassKind::Host);
    r.push(PassKind::Device);
    proof {
        assert(r@ =~= pass_sequence());
    }
    r
}

impl PassKind {
    /// The memory properties that the pass asks for.
    pub open spec fn required_flags(self) -> FlagSet {
        match self {
            PassKind::Host => FlagSet { bits: 0x2 },
            PassKind::Device => FlagSet { bits: 0x1 },
        }
    }

    /// The heading that is written before the pass.
    pub open spec fn heading_text(self) -> Seq<char> {
        match self {
            PassKind::Host => seq!['H', 'o', 's', 't', ':'],
            PassKind::Device => seq!['D', 'e', 'v', 'i', 'c', 'e', ':'],
        }
    }

    /// The memory properties that the pass asks for: host-visible memory for
    /// the first pass, device-local memory for the second.
    pub fn property_flags(&self) -> (r: FlagSet)
        ensures
            r == self.required_flags(),
    {
        match self {
            PassKind::Host => FlagSet::from_bits(MEMORY_HOST_VISIBLE),
            PassKind::Device => FlagSet::from_bits(MEMORY_DEVICE_LOCAL),
        }
    }

    /// The heading that is written before the pass.
    pub fn heading(&self) -> (r: String)
        ensures
            r@ == self.heading_text(),
    {
        match self {
            PassKind::Host => {
                proof {
                    reveal_strlit("Host:");
                }
                let r = String::from_str("Host:");
                assert(r@ =~= self.heading_text());
                r
            },
            PassKind::Device => {
                proof {
                    reveal_strlit("Device:");
                }
                let r = String::from_str("Device:");
                assert(r@ =~= self.heading_text());
                r
            },
        }
    }
}

/// The character for the digit `d`.
pub open spec fn digit_char(d: nat) -> char {
    if d == 0 {
        '0'
    } else if d == 1 {
        '1'
    } else if d == 2 {
        '2'
    } else if d == 3 {
        '3'
    } else if d == 4 {
        '4'
    } else if d == 5 {
        '5'
    } else if d == 6 {
        '6'
    } else if d == 7 {
        '7'
    } else if d == 8 {
        '8'
    } else {
        '9'
    }
}

/// The number `n` in decimal, without leading zeros.
pub open spec fn decimal(n: nat) -> Seq<char>
    decreases n,
{
    if n < 10 {
        seq![digit_char(n)]
    } else {
        decimal(n / 10).push(digit_char(n % 10))
    }
}

/// The last `width` decimal digits of `n`, with zeros in front where `n` has
/// fewer digits.
pub open spec fn zero_padded(n: nat, width: nat) -> Seq<char>
    decreases width,
{
    if width == 0 {
        Seq::empty()
    } else {
        zero_padded(n / 10, (width - 1) as nat).push(digit_char(n % 10))
    }
}

/// The line that reports a successful allocation of `size` bytes that took
/// `latency`: the size in bytes, then the latency in seconds with nine
/// digits after the point.
pub open spec fn allocation_text(size: u64, latency: Latency) -> Seq<char> {
    "buffer size: "@ + decimal(size as nat) + "B; allocation time: "@ + decimal(
        latency.whole_seconds(),
    ) + "."@ + zero_padded(latency.fraction_nanos(), 9) + "s"@
}

/// The text for the digit `d`.
fn digit_str(d: u8) -> (r: &'static str)
    requires
        d < 10,
    ensures
        r@ == seq![digit_char(d as nat)],
{
    proof {
        reveal_strlit("0");
        reveal_strlit("1");
        reveal_strlit("2");
        reveal_strlit("3");
        reveal_strlit("4");
        reveal_strlit("5");
        reveal_strlit("6");
        reveal_strlit("7");
        reveal_strlit("8");
        reveal_strlit("9");
    }
    let r = match d {
        0 => "0",
        1 => "1",
        2 => "2",
        3 => "3",
        4 => "4",
        5 => "5",
        6 => "6",
        7 => "7",
        8 => "8",
        _ => "9",
    };
    assert(r@ =~= seq![digit_char(d as nat)]);
    r
}

/// Writes `n` in decimal at the end of `text`.
pub fn push_decimal(text: &mut String, n: u128)
    ensures
        final(text)@ == old(text)@ + decimal(n as nat),
    decreases n,
{
    if n >= 10 {
        push_decimal(text, n / 10);
    }
    text.append(digit_str((n % 10) as u8));
    proof {
        if n >= 10 {
            assert(old(text)@ + decimal((n / 10) as nat) + seq![digit_char((n % 10) as nat)]
                =~= old(text)@ + decimal(n as nat));
        }
    }
}

/// Writes the last `width` decimal digits of `n` at the end of `text`, with
/// zeros in front where `n` has fewer digits.
pub fn push_zero_padded(text: &mut String, n: u32, width: u32)
    ensures
        final(text)@ == old(text)@ + zero_padded(n as nat, width as nat),
    decreases width,
{
    if width == 0 {
        assert(old(text)@ + zero_padded(n as nat, 0) =~= old(text)@);
        return ;
    }
    push_zero_padded(text, n / 10, width - 1);
    text.append(digit_str((n % 10) as u8));
    proof {
        assert(old(text)@ + zero_padded((n / 10) as nat, (width - 1) as nat) + seq![
            digit_char((n % 10) as nat),
        ] =~= old(text)@ + zero_padded(n as nat, width as nat));
    }
}

/// The line that reports a successful allocation of `size` bytes that took
/// `latency`.
pub fn allocation_line(size: u64, latency: Latency) -> (r: String)
    ensures
        r@ == allocation_text(size, latency),
{
    let mut text = String::from_str("buffer size: ");
    push_decimal(&mut text, size as u128);
    text.append("B; allocation time: ");
    push_decimal(&mut text, latency.secs());
    text.append(".");
    push_zero_padded(&mut text, latency.subsec_nanos(), NANOS_DIGITS);
    text.append("s");
    text
}

/// The line that reports that a size was skipped because its memory could
/// not be allocated.
pub fn skip_line() -> (r: String)
    ensures
        r@ == "Error creating buffer memory (probably oom)."@,
{
    String::from_str("Error creating buffer memory (probably oom).")
}

/// The line that is written when a run starts.
pub fn startup_line() -> (r: String)
    ensures
        r@ == "Beginning buffer test."@,
{
    String::from_str("Beginning buffer test.")
}

} // verus!
