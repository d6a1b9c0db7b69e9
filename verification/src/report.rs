//! The report on one direction: four rates, in whole per cent, and the lines
//! that show them.

use crate::stats_model::StatsView;
use vstd::prelude::*;
use vstd::string::StringExecFns;

verus! {

/// `part` out of `whole` in whole per cent, rounded down. There is no rate
/// of nothing.
pub open spec fn percentage(part: nat, whole: nat) -> Option<nat> {
    if whole == 0 {
        None
    } else {
        Some(part * 100 / whole)
    }
}

/// The rates of one direction. A rate is `None` where nothing was counted
/// that it could be a rate of.
#[derive(Clone, Copy, Debug, PartialEq, Eq)]
pub struct Rates {
    /// Multi-packet frames that bundle more than one acknowledgement, out of
    /// all multi-packet frames.
    pub duplicate_ack_multipacket_rate: Option<u64>,
    /// Stale acknowledgements out of all acknowledgements.
    pub stale_ack_rate: Option<u64>,
    /// Stale out-of-order reports out of all out-of-order reports.
    pub stale_out_of_order_rate: Option<u64>,
    /// Resent data messages and fragments out of all of them.
    pub resent_data_rate: Option<u64>,
}

/// The mathematical value of a [`Rates`].
pub ghost struct RatesView {
    pub duplicate_ack_multipacket_rate: Option<nat>,
    pub stale_ack_rate: Option<nat>,
    pub stale_out_of_order_rate: Option<nat>,
    pub resent_data_rate: Option<nat>,
}

/// The mathematical value of one rate.
pub open spec fn rate_view(rate: Option<u64>) -> Option<nat> {
    match rate {
        Some(percent) => Some(percent as nat),
        None => None,
    }
}

impl View for Rates {
    type V = RatesView;

    open spec fn view(&self) -> RatesView {
        RatesView {
            duplicate_ack_multipacket_rate: rate_view(self.duplicate_ack_multipacket_rate),
            stale_ack_rate: rate_view(self.stale_ack_rate),
            stale_out_of_order_rate: rate_view(self.stale_out_of_order_rate),
            resent_data_rate: rate_view(self.resent_data_rate),
        }
    }
}

/// `part` out of `whole` in whole per cent.
pub(crate) fn percent(part: u64, whole: u64) -> (rate: Option<u64>)
    requires
        part <= whole,
    ensures
        rate_view(rate) == percentage(part as nat, whole as nat),
        rate matches Some(p) ==> p <= 100,
{
    if whole == 0 {
        None
    } else {
        let scaled: u128 = part as u128 * 100;
        let quotient: u128 = scaled / (whole as u128);
        assert(quotient <= 100) by (nonlinear_arith)
            requires
                quotient == (part * 100) / (whole as int),
                0 <= part <= whole,
                whole > 0,
        ;
        Some(quotient as u64)
    }
}

/// The character of one decimal digit.
pub open spec fn digit_char(digit: nat) -> char {
    if digit == 0 {
        '0'
    } else if digit == 1 {
        '1'
    } else if digit == 2 {
        '2'
    } else if digit == 3 {
        '3'
    } else if digit == 4 {
        '4'
    } else if digit == 5 {
        '5'
    } else if digit == 6 {
        '6'
    } else if digit == 7 {
        '7'
    } else if digit == 8 {
        '8'
    } else {
        '9'
    }
}

/// A number in decimal, without leading zeros.
pub open spec fn decimal(number: nat) -> Seq<char>
    decreases number,
{
    if number < 10 {
        seq![digit_char(number)]
    } else {
        decimal(number / 10).push(digit_char(number % 10))
    }
}

fn digit_text(digit: u64) -> (text: &'static str)
    requires
        digit < 10,
    ensures
        text@ == seq![digit_char(digit as nat)],
{
    proof {
        reveal_strlit("0");
        reveal_strlit("1");
        reveal_strlit("2");
        reveal_strlit("3");
        reveal_strlit("4");
        reveal_strlit("5");
        reveal_strlit("6");
        reveal_strlit("7");
        reveal_strlit("8");
        reveal_strlit("9");
    }
    let text = if digit == 0 {
        "0"
    } else if digit == 1 {
        "1"
    } else if digit == 2 {
        "2"
    } else if digit == 3 {
        "3"
    } else if digit == 4 {
        "4"
    } else if digit == 5 {
        "5"
    } else if digit == 6 {
        "6"
    } else if digit == 7 {
        "7"
    } else if digit == 8 {
        "8"
    } else {
        "9"
    };
    assert(text@ =~= seq![digit_char(digit as nat)]);
    text
}

/// Writes `number` in decimal at the end of `out`.
pub fn push_decimal(out: &mut String, number: u64)
    ensures
        final(out)@ == old(out)@ + decimal(number as nat),
    decreases number,
{
    if number >= 10 {
        push_decimal(out, number / 10);
    }
    out.append(digit_text(number % 10));
}

/// The line that shows one rate, if there is a rate to show.
pub open spec fn rate_line(rate: Option<nat>, label: Seq<char>) -> Seq<Seq<char>> {
    match rate {
        Some(percent) => seq![decimal(percent) + label],
        None => Seq::empty(),
    }
}

/// The rates that the counters of one direction give.
pub open spec fn rates_of(stats: StatsView) -> RatesView {
    RatesView {
        duplicate_ack_multipacket_rate: percentage(
            stats.multi_packets_with_duplicate_acks,
            stats.total_multi_packets,
        ),
        stale_ack_rate: percentage(stats.stale_acks, stats.total_acks),
        stale_out_of_order_rate: percentage(stats.stale_out_of_order, stats.total_out_of_order),
        resent_data_rate: percentage(stats.resent_data_count, stats.total_data_packets),
    }
}

/// The lines that show the rates of one direction, a line for each rate
/// that there is.
pub open spec fn report_lines(rates: RatesView) -> Seq<Seq<char>> {
    rate_line(rates.duplicate_ack_multipacket_rate, "% of multiple acks per buffer"@) + rate_line(
        rates.stale_ack_rate,
        "% of useless acks"@,
    ) + rate_line(rates.stale_out_of_order_rate, "% of useless outoforder"@) + rate_line(
        rates.resent_data_rate,
        "% of resended data"@,
    )
}

/// The texts of a run of lines, in order.
pub open spec fn line_views(lines: Seq<String>) -> Seq<Seq<char>> {
    lines.map_values(|line: String| line@)
}

/// Adds the line that shows one rate, if there is a rate to show.
pub fn push_rate_line(lines: &mut Vec<String>, rate: Option<u64>, label: &str)
    ensures
        line_views(final(lines)@) == line_views(old(lines)@) + rate_line(rate_view(rate), label@),
{
    if let Some(percent) = rate {
        let mut line = String::new();
        push_decimal(&mut line, percent);
        line.append(label);
        let ghost earlier = lines@;
        lines.push(line);
        assert(line_views(lines@) == line_views(earlier).push(line@));
    }
}

impl Rates {
    /// The lines that show these rates.
    pub fn lines(&self) -> (lines: Vec<String>)
        ensures
            line_views(lines@) == report_lines(self@),
    {
        let mut lines: Vec<String> = Vec::new();
        push_rate_line(
            &mut lines,
            self.duplicate_ack_multipacket_rate,
            "% of multiple acks per buffer",
        );
        push_rate_line(&mut lines, self.stale_ack_rate, "% of useless acks");
        push_rate_line(&mut lines, self.stale_out_of_order_rate, "% of useless outoforder");
        push_rate_line(&mut lines, self.resent_data_rate, "% of resended data");
        lines
    }
}

} // verus!
