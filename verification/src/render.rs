//! Verified text output: decimal numbers, dotted-decimal addresses, and the
//! seven-line report text.

use vstd::prelude::*;
use vstd::string::StringExecFns;

use crate::subnet::SubnetReport;

verus! {

/// The character of the decimal digit `d`.
pub open spec fn digit_char(d: int) -> char
    recommends
        0 <= d <= 9,
{
    if d == 0 {
        '0'
    } else if d == 1 {
        '1'
    } else if d == 2 {
        '2'
    } else if d == 3 {
        '3'
    } else if d == 4 {
        '4'
    } else if d == 5 {
        '5'
    } else if d == 6 {
        '6'
    } else if d == 7 {
        '7'
    } else if d == 8 {
        '8'
    } else {
        '9'
    }
}

/// The decimal digits of `n`, most significant first, with no leading zeros
/// (`0` itself is the single digit `0`).
pub open spec fn dec_digits(n: int) -> Seq<char>
    recommends
        n >= 0,
    decreases n,
{
    if n < 10 {
        seq![digit_char(n)]
    } else {
        dec_digits(n / 10).push(digit_char(n % 10))
    }
}

/// The dotted-decimal form of the address `a`: its four octets, most
/// significant first, separated by dots.
pub open spec fn dotted_decimal(a: u32) -> Seq<char> {
    dec_digits((a >> 24) as int) + seq!['.'] + dec_digits(((a >> 16) & 0xFF) as int) + seq!['.']
        + dec_digits(((a >> 8) & 0xFF) as int) + seq!['.'] + dec_digits((a & 0xFF) as int)
}

/// The single-digit string for `d`.
fn digit_str(d: u32) -> (r: &'static str)
    requires
        d <= 9,
    ensures
        r@ == seq![digit_char(d as int)],
{
    if d == 0 {
        proof {
            reveal_strlit("0");
            assert("0"@ =~= seq![digit_char(0)]);
        }
        "0"
    } else if d == 1 {
        proof {
            reveal_strlit("1");
            assert("1"@ =~= seq![digit_char(1)]);
        }
        "1"
    } else if d == 2 {
        proof {
            reveal_strlit("2");
            assert("2"@ =~= seq![digit_char(2)]);
        }
        "2"
    } else if d == 3 {
        proof {
            reveal_strlit("3");
            assert("3"@ =~= seq![digit_char(3)]);
        }
        "3"
    } else if d == 4 {
        proof {
            reveal_strlit("4");
            assert("4"@ =~= seq![digit_char(4)]);
        }
        "4"
    } else if d == 5 {
        proof {
            reveal_strlit("5");
            assert("5"@ =~= seq![digit_char(5)]);
        }
        "5"
    } else if d == 6 {
        proof {
            reveal_strlit("6");
            assert("6"@ =~= seq![digit_char(6)]);
        }
        "6"
    } else if d == 7 {
        proof {
            reveal_strlit("7");
            assert("7"@ =~= seq![digit_char(7)]);
        }
        "7"
    } else if d == 8 {
        proof {
            reveal_strlit("8");
            assert("8"@ =~= seq![digit_char(8)]);
        }
        "8"
    } else {
        proof {
            reveal_strlit("9");
            assert("9"@ =~= seq![digit_char(9)]);
        }
        "9"
    }
}

/// Render `n` in decimal, most significant digit first.
pub fn u32_to_decimal(n: u32) -> (r: String)
    ensures
        r@ == dec_digits(n as int),
    decreases n,
{
    if n < 10 {
        let r = digit_str(n).to_owned();
        r
    } else {
        let mut r = u32_to_decimal(n / 10);
        r.append(digit_str(n % 10));
        proof {
            assert(dec_digits((n / 10) as int) + seq![digit_char((n % 10) as int)] =~= dec_digits(
                n as int,
            ));
        }
        r
    }
}

/// Render the address `a` in dotted-decimal form.
pub fn format_ipv4(a: u32) -> (r: String)
    ensures
        r@ == dotted_decimal(a),
{
    let mut r = u32_to_decimal(a >> 24);
    proof {
        reveal_strlit(".");
        assert("."@ =~= seq!['.']);
    }
    r.append(".");
    let p2 = u32_to_decimal((a >> 16) & 0xFF);
    r.append(p2.as_str());
    r.append(".");
    let p3 = u32_to_decimal((a >> 8) & 0xFF);
    r.append(p3.as_str());
    r.append(".");
    let p4 = u32_to_decimal(a & 0xFF);
    r.append(p4.as_str());
    proof {
        assert(r@ =~= dotted_decimal(a));
    }
    r
}

/// The full report text: seven labeled lines in fixed order, each value in
/// dotted-decimal except the host count, each line ending in a newline.
pub open spec fn report_text_spec(r: SubnetReport) -> Seq<char> {
    "IP Address: "@ + dotted_decimal(r.ip) + "\n"@ + "Subnet Mask: "@ + dotted_decimal(r.mask)
        + "\n"@ + "Network Address: "@ + dotted_decimal(r.network) + "\n"@
        + "Broadcast Address: "@ + dotted_decimal(r.broadcast) + "\n"@
        + "Number of Usable Hosts: "@ + dec_digits(r.usable_hosts as int) + "\n"@
        + "First Usable IP: "@ + dotted_decimal(r.first_usable) + "\n"@ + "Last Usable IP: "@
        + dotted_decimal(r.last_usable) + "\n"@
}

impl SubnetReport {
    /// Render the report as its seven labeled lines.
    pub fn render(&self) -> (r: String)
        ensures
            r@ == report_text_spec(*self),
    {
        let mut r = String::new();
        r.append("IP Address: ");
        let ip = format_ipv4(self.ip);
        r.append(ip.as_str());
        r.append("\n");
        r.append("Subnet Mask: ");
        let mask = format_ipv4(self.mask);
        r.append(mask.as_str());
        r.append("\n");
        r.append("Network Address: ");
        let network = format_ipv4(self.network);
        r.append(network.as_str());
        r.append("\n");
        r.append("Broadcast Address: ");
        let broadcast = format_ipv4(self.broadcast);
        r.append(broadcast.as_str());
        r.append("\n");
        r.append("Number of Usable Hosts: ");
        let hosts = u32_to_decimal(self.usable_hosts);
        r.append(hosts.as_str());
        r.append("\n");
        r.append("First Usable IP: ");
        let first = format_ipv4(self.first_usable);
        r.append(first.as_str());
        r.append("\n");
        r.append("Last Usable IP: ");
        let last = format_ipv4(self.last_usable);
        r.append(last.as_str());
        r.append("\n");
        proof {
            assert(r@ =~= report_text_spec(*self));
        }
        r
    }
}

} // verus!
