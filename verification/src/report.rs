//! The text that reports the statistics.
//!
//! One line for each statistic that the command asks for, in the order
//! bytes, lines, words. A line is a label, the number in decimal and a
//! newline.

use crate::args::Commands;
use crate::info::FileInformation;
use vstd::prelude::*;
use vstd::string::*;

verus! {

/// The character for a decimal digit `d`, which is below ten.
pub open spec fn digit(d: nat) -> char {
    if d == 0 {
        '0'
    } else if d == 1 {
        '1'
    } else if d == 2 {
        '2'
    } else if d == 3 {
        '3'
    } else if d == 4 {
        '4'
    } else if d == 5 {
        '5'
    } else if d == 6 {
        '6'
    } else if d == 7 {
        '7'
    } else if d == 8 {
        '8'
    } else {
        '9'
    }
}

/// The decimal numeral of `n`, without leading zeros.
pub open spec fn decimal(n: nat) -> Seq<char>
    decreases n,
{
    if n < 10 {
        seq![digit(n)]
    } else {
        decimal(n / 10).push(digit(n % 10))
    }
}

/// One line of a report: the label, the number and a newline.
pub open spec fn report_line(label: Seq<char>, n: nat) -> Seq<char> {
    label + decimal(n) + seq!['\n']
}

/// The report of `file` that `command` asks for.
pub open spec fn report(command: Commands, file: FileInformation) -> Seq<char> {
    match command {
        Commands::GetBytes => report_line("Bytes: "@, file.bytes as nat),
        Commands::GetLines => report_line("Lines: "@, file.lines as nat),
        Commands::GetWords => report_line("Words: "@, file.words as nat),
        Commands::Empty => report_line("Bytes: "@, file.bytes as nat) + report_line(
            "Lines: "@,
            file.lines as nat,
        ) + report_line("Words: "@, file.words as nat),
    }
}

/// The one-character text of a decimal digit.
fn digit_text(d: u64) -> (text: &'static str)
    requires
        d < 10,
    ensures
        text@ == seq![digit(d as nat)],
{
    proof {
        reveal_strlit("0");
        reveal_strlit("1");
        reveal_strlit("2");
        reveal_strlit("3");
        reveal_strlit("4");
        reveal_strlit("5");
        reveal_strlit("6");
        reveal_strlit("7");
        reveal_strlit("8");
        reveal_strlit("9");
    }
    let text = if d == 0 {
        "0"
    } else if d == 1 {
        "1"
    } else if d == 2 {
        "2"
    } else if d == 3 {
        "3"
    } else if d == 4 {
        "4"
    } else if d == 5 {
        "5"
    } else if d == 6 {
        "6"
    } else if d == 7 {
        "7"
    } else if d == 8 {
        "8"
    } else {
        "9"
    };
    assert(text@ =~= seq![digit(d as nat)]);
    text
}

/// Writes the decimal numeral of `n` at the end of `out`.
fn push_decimal(out: &mut String, n: u64)
    ensures
        final(out)@ == old(out)@ + decimal(n as nat),
    decreases n,
{
    if n >= 10 {
        push_decimal(out, n / 10);
    }
    out.append(digit_text(n % 10));
    proof {
        if n >= 10 {
            assert(old(out)@ + decimal((n / 10) as nat) + seq![digit((n % 10) as nat)] =~= old(
                out,
            )@ + decimal((n / 10) as nat).push(digit((n % 10) as nat)));
        }
    }
}

/// Writes one line of a report at the end of `out`.
fn push_report_line(out: &mut String, label: &str, n: u64)
    ensures
        final(out)@ == old(out)@ + report_line(label@, n as nat),
{
    out.append(label);
    push_decimal(out, n);
    out.append("\n");
    proof {
        reveal_strlit("\n");
        assert("\n"@ =~= seq!['\n']);
        assert(old(out)@ + label@ + decimal(n as nat) + seq!['\n'] =~= old(out)@ + report_line(
            label@,
            n as nat,
        ));
    }
}

/// The report of `file` that `command` asks for: the bytes, the lines or the
/// words alone, or all three in that order.
pub fn print_command_result(command: &Commands, file: &FileInformation) -> (out: String)
    ensures
        out@ == report(*command, *file),
{
    let mut out = String::new();
    match command {
        Commands::GetBytes => push_report_line(&mut out, "Bytes: ", file.bytes),
        Commands::GetLines => push_report_line(&mut out, "Lines: ", file.lines as u64),
        Commands::GetWords => push_report_line(&mut out, "Words: ", file.words as u64),
        Commands::Empty => {
            push_report_line(&mut out, "Bytes: ", file.bytes);
            push_report_line(&mut out, "Lines: ", file.lines as u64);
            push_report_line(&mut out, "Words: ", file.words as u64);
        },
    }
    assert(out@ =~= report(*command, *file));
    out
}

} // verus!
