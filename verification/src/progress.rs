//! The status line of a transfer, and sizes in words.

use vstd::prelude::*;
use vstd::string::StringExecFns;
use crate::decimal::append_decimal;
use crate::decimal::append_fixed2;
use crate::decimal::decimal;
use crate::decimal::div_round_half_even;
use crate::decimal::fixed2;
use crate::decimal::round_half_even;

verus! {

/// The width of the progress bar, in characters.
pub const BAR_WIDTH: u64 = 30;

/// How many cells of the bar are filled: the downloaded share of its width,
/// rounded down. A transfer that has received more than was declared fills
/// the bar and no more.
pub open spec fn bar_fill(downloaded: u64, total: u64) -> nat
    recommends
        total > 0,
{
    let cells = downloaded as nat * 30 / total as nat;
    if cells > 30 {
        30
    } else {
        cells
    }
}

/// The downloaded share in hundredths of a percent, rounded to the nearest,
/// a tie going to the even one. It is not capped: a transfer that has
/// received more than was declared reports more than 100%.
pub open spec fn percent_hundredths(downloaded: u64, total: u64) -> nat
    recommends
        total > 0,
{
    round_half_even(downloaded as nat * 10000, total as nat)
}

/// `n` times the character `c`.
pub open spec fn repeated(c: char, n: nat) -> Seq<char> {
    Seq::new(n, |i: int| c)
}

/// The bar: filled cells, then blanks up to its width.
pub open spec fn bar(filled: nat) -> Seq<char>
    recommends
        filled <= 30,
{
    repeated('█', filled) + repeated(' ', (30 - filled) as nat)
}

/// The text that brings the status line up to date.
///
/// With no total known it is a line of its own: the name, the count, and a
/// newline at its end; nothing is drawn over. With a total it starts with a
/// carriage return and ends without a newline, so that the next one is drawn
/// over it.
pub open spec fn progress_text(name: Seq<char>, downloaded: u64, total: u64) -> Seq<char> {
    if total == 0 {
        name + ": "@ + decimal(downloaded as nat) + " bytes / unknown size\n"@
    } else {
        "\r"@ + name + ": ["@ + bar(bar_fill(downloaded, total)) + "] "@ + fixed2(
            percent_hundredths(downloaded, total),
        ) + "%"@
    }
}

/// Appends `n` times the one-character text `cell` to `text`.
fn append_repeated(text: &mut String, cell: &str, n: u64)
    requires
        cell@.len() == 1,
    ensures
        final(text)@ == old(text)@ + repeated(cell@[0], n as nat),
{
    let mut i: u64 = 0;
    assert(text@ =~= old(text)@ + repeated(cell@[0], 0));
    while i < n
        invariant
            i <= n,
            cell@.len() == 1,
            text@ == old(text)@ + repeated(cell@[0], i as nat),
        decreases n - i,
    {
        text.append(cell);
        i += 1;
        assert(text@ =~= old(text)@ + repeated(cell@[0], i as nat));
    }
}

/// How many cells of the bar to fill.
fn filled_width(downloaded_bytes: u64, total_bytes: u64) -> (cells: u64)
    requires
        total_bytes > 0,
    ensures
        cells == bar_fill(downloaded_bytes, total_bytes),
        cells <= BAR_WIDTH,
{
    let cells: u128 = downloaded_bytes as u128 * 30 / total_bytes as u128;
    if cells > 30 {
        30
    } else {
        cells as u64
    }
}

/// The text that brings the status line up to date: see [`progress_text`].
pub fn update_progress(file_name: &str, downloaded_bytes: u64, total_bytes: u64) -> (line: String)
    ensures
        line@ == progress_text(file_name@, downloaded_bytes, total_bytes),
{
    if total_bytes == 0 {
        let mut line = String::from_str(file_name);
        line.append(": ");
        append_decimal(&mut line, downloaded_bytes as u128);
        line.append(" bytes / unknown size\n");
        assert(line@ =~= progress_text(file_name@, downloaded_bytes, total_bytes));
        return line;
    }
    let mut line = String::from_str("\r");
    line.append(file_name);
    let filled = filled_width(downloaded_bytes, total_bytes);
    line.append(": [");
    proof {
        reveal_strlit("█");
        reveal_strlit(" ");
    }
    append_repeated(&mut line, "█", filled);
    append_repeated(&mut line, " ", BAR_WIDTH - filled);
    line.append("] ");
    let hundredths = div_round_half_even(downloaded_bytes as u128 * 10000, total_bytes as u128);
    append_fixed2(&mut line, hundredths);
    line.append("%");
    assert(line@ =~= progress_text(file_name@, downloaded_bytes, total_bytes));
    line
}

/// The unit in which a size is put: the largest of B, KB, MB, GB, TB that
/// is no more than the size, numbered from 0; B for less than a kilobyte.
pub open spec fn unit_index(size: u64) -> nat {
    if size < 1024 {
        0
    } else if size < 1024 * 1024 {
        1
    } else if size < 1024 * 1024 * 1024 {
        2
    } else if size < 1024 * 1024 * 1024 * 1024 {
        3
    } else {
        4
    }
}

/// How many bytes the unit of that number holds: 1024 to its power.
pub open spec fn unit_bytes(unit: nat) -> nat {
    if unit == 0 {
        1
    } else if unit == 1 {
        1024
    } else if unit == 2 {
        1024 * 1024
    } else if unit == 3 {
        1024 * 1024 * 1024
    } else {
        1024 * 1024 * 1024 * 1024
    }
}

/// The name of the unit of that number.
pub open spec fn unit_name(unit: nat) -> Seq<char> {
    if unit == 0 {
        "B"@
    } else if unit == 1 {
        "KB"@
    } else if unit == 2 {
        "MB"@
    } else if unit == 3 {
        "GB"@
    } else {
        "TB"@
    }
}

/// A size in words: the size in its unit with two decimal places, rounded
/// to the nearest, a tie going to the even one; a blank; the unit's name.
pub open spec fn pretty_text(size: u64) -> Seq<char> {
    fixed2(round_half_even(size as nat * 100, unit_bytes(unit_index(size)))) + " "@ + unit_name(
        unit_index(size),
    )
}

/// A size in words, such as `1.50 KB`: see [`pretty_text`].
pub fn pretty_size(size: u64) -> (text: String)
    ensures
        text@ == pretty_text(size),
{
    let mut unit: u8 = 0;
    let mut bytes: u128 = 1;
    while unit < 4 && size as u128 >= bytes * 1024
        invariant
            unit <= 4,
            bytes == unit_bytes(unit as nat),
            unit_index(size) >= unit,
        decreases 4 - unit,
    {
        bytes = bytes * 1024;
        unit += 1;
    }
    assert(unit == unit_index(size));
    let hundredths = div_round_half_even(size as u128 * 100, bytes);
    let mut text = String::new();
    append_fixed2(&mut text, hundredths);
    text.append(" ");
    let name = if unit == 0 {
        "B"
    } else if unit == 1 {
        "KB"
    } else if unit == 2 {
        "MB"
    } else if unit == 3 {
        "GB"
    } else {
        "TB"
    };
    text.append(name);
    assert(text@ =~= pretty_text(size));
    text
}

/// The bar is as wide as it is meant to be, whatever the counters are.
pub proof fn bar_has_its_width(downloaded: u64, total: u64)
    ensures
        bar_fill(downloaded, total) <= 30,
        bar(bar_fill(downloaded, total)).len() == 30,
{
}

/// When all of a known total is downloaded, the status line shows a full
/// bar and 100.00%.
pub proof fn complete_progress_reads_one_hundred(name: Seq<char>, total: u64)
    requires
        total > 0,
    ensures
        progress_text(name, total, total) == "\r"@ + name + ": ["@ + repeated('█', 30)
            + "] 100.00%"@,
{
    let t = total as nat;
    assert(t * 30 / t == 30 && t * 10000 / t == 10000 && t * 10000 % t == 0)
        by (nonlinear_arith)
        requires
            t > 0,
    ;
    assert(bar_fill(total, total) == 30);
    assert(percent_hundredths(total, total) == 10000);
    reveal_with_fuel(decimal, 3);
    assert(fixed2(10000) =~= seq!['1', '0', '0', '.', '0', '0']);
    reveal_strlit("] ");
    reveal_strlit("%");
    reveal_strlit("] 100.00%");
    assert(bar(30) =~= repeated('█', 30));
    assert("] "@ + fixed2(10000) + "%"@ =~= "] 100.00%"@);
    assert(progress_text(name, total, total) =~= "\r"@ + name + ": ["@ + repeated('█', 30)
        + "] 100.00%"@);
}

} // verus!
