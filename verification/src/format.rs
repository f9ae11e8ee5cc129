//! How measurements and messages are put into words.

use vstd::prelude::*;

use crate::split::{after_last, last_part, law_last_part, occurs, occurs_at};
use crate::text::{
    decimal, push_decimal, push_repeated, push_text, repeated, trim, trim_end_of, trimmed,
    trimmed_end, trimmed_end_of, trimmed_start, is_space,
};

verus! {

/// How many full blocks the strongest signal bar has.
pub const MAX_BLOCKS: usize = 10;

/// The colors that a signal strength is shown in.
#[derive(Clone, Copy, Debug, PartialEq, Eq, Structural)]
pub enum Color {
    Green,
    Yellow,
    Red,
}

// ---------------------------------------------------------------------------------------------
// Signal strength
// ---------------------------------------------------------------------------------------------

/// A signal strength, held between the weakest and the strongest that the bar tells apart.
pub open spec fn clamped_dbm(dbm: int) -> int {
    if dbm < -90 {
        -90
    } else if dbm > -30 {
        -30
    } else {
        dbm
    }
}

/// How many full blocks stand for a signal strength: one for each five dBm above -90, to the
/// nearest, and never more than `MAX_BLOCKS`.
pub open spec fn blocks(dbm: int) -> nat {
    let nearest = (2 * (clamped_dbm(dbm) + 90) + 5) / 10;
    if nearest < MAX_BLOCKS {
        nearest as nat
    } else {
        MAX_BLOCKS as nat
    }
}

/// The falloff at the end of each bar.
pub open spec fn bar_tail() -> Seq<char> {
    seq!['▓', '▒', '░']
}

/// The bar for a signal strength: full blocks, the falloff, and spaces up to the width of the
/// strongest bar.
pub open spec fn bar_text(dbm: int) -> Seq<char> {
    repeated('█', blocks(dbm)) + bar_tail() + repeated(' ', (MAX_BLOCKS - blocks(dbm)) as nat)
}

/// Draws a signal strength as a bar: ten blocks for -30 dBm, eight for -50 dBm, five for
/// -65 dBm, two for -80 dBm.
pub fn signal_bar(dbm: i16) -> (res: String)
    ensures
        res@ == bar_text(dbm as int),
{
    let clamped: i16 = if dbm < -90 {
        -90
    } else if dbm > -30 {
        -30
    } else {
        dbm
    };
    let above: usize = (clamped + 90) as usize;
    let nearest: usize = (2 * above + 5) / 10;
    let filled: usize = if nearest < MAX_BLOCKS { nearest } else { MAX_BLOCKS };
    let mut res = String::new();
    push_repeated(&mut res, '█', filled);
    res.push('▓');
    res.push('▒');
    res.push('░');
    push_repeated(&mut res, ' ', MAX_BLOCKS - filled);
    assert(res@ =~= bar_text(dbm as int));
    res
}

/// A stronger signal never gets a shorter bar.
pub proof fn law_bar_grows(weaker: int, stronger: int)
    requires
        weaker <= stronger,
    ensures
        blocks(weaker) <= blocks(stronger),
{
}

/// Every bar is as wide as every other, begins with its full blocks and shows the falloff
/// right behind them.
pub proof fn law_bar_shape(dbm: int)
    ensures
        bar_text(dbm).len() == MAX_BLOCKS + 3,
        blocks(dbm) <= MAX_BLOCKS,
        bar_text(dbm).take(blocks(dbm) as int) == repeated('█', blocks(dbm)),
        bar_text(dbm).subrange(blocks(dbm) as int, blocks(dbm) + 3int) == bar_tail(),
{
    assert(bar_text(dbm).take(blocks(dbm) as int) =~= repeated('█', blocks(dbm)));
    assert(bar_text(dbm).subrange(blocks(dbm) as int, blocks(dbm) + 3int) =~= bar_tail());
}

/// The color of a signal strength: green down to -55 dBm, yellow down to -70 dBm, red below.
pub open spec fn color_of(dbm: int) -> Color {
    if dbm >= -55 {
        Color::Green
    } else if dbm >= -70 {
        Color::Yellow
    } else {
        Color::Red
    }
}

/// Picks the color that a signal strength is shown in.
pub fn dbm_color(dbm: i16) -> (res: Color)
    ensures
        res == color_of(dbm as int),
{
    if dbm >= -55 {
        Color::Green
    } else if dbm >= -70 {
        Color::Yellow
    } else {
        Color::Red
    }
}

// ---------------------------------------------------------------------------------------------
// Frequency
// ---------------------------------------------------------------------------------------------

/// The channel at a frequency in MHz: 14 at 2484, one for each 5 MHz above 2407 in the 2.4 GHz
/// band, one for each 5 MHz above 5000 in the 5 GHz band. Elsewhere the frequency itself.
pub open spec fn channel_text(mhz: nat) -> Seq<char> {
    if mhz == 2484 {
        decimal(14)
    } else if 2412 <= mhz < 2484 {
        decimal(((mhz - 2407) / 5) as nat)
    } else if 5170 <= mhz <= 5825 {
        decimal(((mhz - 5000) / 5) as nat)
    } else {
        decimal(mhz) + " MHz"@
    }
}

/// Names the channel at a frequency.
pub fn freq_to_channel(freq_mhz: u32) -> (res: String)
    ensures
        res@ == channel_text(freq_mhz as nat),
{
    let mut res = String::new();
    if freq_mhz >= 2412 && freq_mhz <= 2484 {
        if freq_mhz == 2484 {
            push_decimal(&mut res, 14);
        } else {
            push_decimal(&mut res, ((freq_mhz - 2407) / 5) as u64);
        }
    } else if freq_mhz >= 5170 && freq_mhz <= 5825 {
        push_decimal(&mut res, ((freq_mhz - 5000) / 5) as u64);
    } else {
        push_decimal(&mut res, freq_mhz as u64);
        push_text(&mut res, " MHz");
    }
    assert(res@ =~= channel_text(freq_mhz as nat));
    res
}

/// In the 2.4 GHz band, channels 1 to 13 lie 5 MHz apart from 2412 MHz on.
pub proof fn law_channel_2ghz(channel: nat)
    requires
        1 <= channel <= 13,
    ensures
        channel_text(2407 + 5 * channel) == decimal(channel),
{
}

/// In the 5 GHz band, channels 34 to 165 lie 5 MHz apart from 5170 MHz on.
pub proof fn law_channel_5ghz(channel: nat)
    requires
        34 <= channel <= 165,
    ensures
        channel_text(5000 + 5 * channel) == decimal(channel),
{
}

// ---------------------------------------------------------------------------------------------
// Time
// ---------------------------------------------------------------------------------------------

/// A span of time in words: hours and minutes from one hour on, minutes and seconds below.
pub open spec fn uptime_text(secs: nat) -> Seq<char> {
    if secs >= 3600 {
        decimal(secs / 3600) + "h "@ + decimal(secs % 3600 / 60) + "m"@
    } else {
        decimal(secs / 60) + "m "@ + decimal(secs % 60) + "s"@
    }
}

/// Puts a number of seconds into words.
pub fn format_uptime_secs(secs: u64) -> (res: String)
    ensures
        res@ == uptime_text(secs as nat),
{
    let hours: u64 = secs / 3600;
    let mins: u64 = (secs % 3600) / 60;
    let mut res = String::new();
    if hours > 0 {
        push_decimal(&mut res, hours);
        push_text(&mut res, "h ");
        push_decimal(&mut res, mins);
        push_text(&mut res, "m");
    } else {
        push_decimal(&mut res, mins);
        push_text(&mut res, "m ");
        push_decimal(&mut res, secs % 60);
        push_text(&mut res, "s");
    }
    assert(res@ =~= uptime_text(secs as nat));
    res
}

/// The whole seconds from one moment to another, both in milliseconds; none where the second
/// comes first.
pub open spec fn seconds_between(since_ms: nat, now_ms: nat) -> nat {
    if since_ms <= now_ms {
        ((now_ms - since_ms) / 1000) as nat
    } else {
        0
    }
}

/// Puts the time that has passed since a moment into words. Both moments are in milliseconds
/// on one clock.
pub fn format_uptime(since_ms: u64, now_ms: u64) -> (res: String)
    ensures
        res@ == uptime_text(seconds_between(since_ms as nat, now_ms as nat)),
{
    format_uptime_secs(now_ms.saturating_sub(since_ms) / 1000)
}

// ---------------------------------------------------------------------------------------------
// Speed and volume
// ---------------------------------------------------------------------------------------------

/// A link speed: whole Gbps from 1000 Mbps on, Mbps below.
pub open spec fn speed_text(mbps: nat) -> Seq<char> {
    if mbps >= 1000 {
        decimal(mbps / 1000) + "Gbps"@
    } else {
        decimal(mbps) + "Mbps"@
    }
}

/// Puts a link speed into words.
pub fn format_speed(mbps: u32) -> (res: String)
    ensures
        res@ == speed_text(mbps as nat),
{
    let mut res = String::new();
    if mbps >= 1000 {
        push_decimal(&mut res, (mbps / 1000) as u64);
        push_text(&mut res, "Gbps");
    } else {
        push_decimal(&mut res, mbps as u64);
        push_text(&mut res, "Mbps");
    }
    assert(res@ =~= speed_text(mbps as nat));
    res
}

pub const KB: u64 = 1024;

pub const MB: u64 = 1_048_576;

pub const GB: u64 = 1_073_741_824;

/// Below this number every whole number has a double-precision value of its own.
pub const EXACT_DOUBLES: u64 = 9_007_199_254_740_992;

/// `a / b` to the nearest whole number, to the even one of two that are as near.
pub open spec fn half_even(a: nat, b: nat) -> nat
    recommends
        b > 0,
{
    if 2 * (a % b) < b || (2 * (a % b) == b && a / b % 2 == 0) {
        a / b
    } else {
        a / b + 1
    }
}

/// How far apart the double-precision numbers around `n` lie, where they lie 1 apart or more.
pub open spec fn double_spacing(n: nat) -> nat
    decreases n,
{
    if n < EXACT_DOUBLES {
        1
    } else {
        2 * double_spacing(n / 2)
    }
}

/// The double-precision number nearest to `n`.
pub open spec fn nearest_double(n: nat) -> nat {
    half_even(n, double_spacing(n)) * double_spacing(n)
}

/// A number with one decimal, given in tenths.
pub open spec fn tenths_text(tenths: nat) -> Seq<char> {
    decimal(tenths / 10) + "."@ + decimal(tenths % 10)
}

/// A number with two decimals, given in hundredths.
pub open spec fn hundredths_text(hundredths: nat) -> Seq<char> {
    decimal(hundredths / 100) + "."@ + decimal(hundredths % 100 / 10) + decimal(hundredths % 10)
}

/// A volume of data: GB with two decimals, whole MB, KB with one decimal, or bytes, in the
/// largest of these units that it reaches. Decimals are rounded from the nearest
/// double-precision number.
pub open spec fn bytes_text(bytes: nat) -> Seq<char> {
    if bytes >= GB {
        hundredths_text(half_even(nearest_double(bytes) * 100, GB as nat)) + " GB"@
    } else if bytes >= MB {
        decimal(bytes / MB as nat) + " MB"@
    } else if bytes >= KB {
        tenths_text(half_even(bytes * 10, KB as nat)) + " KB"@
    } else {
        decimal(bytes) + " B"@
    }
}

fn divide_half_even(a: u128, b: u128) -> (res: u128)
    requires
        0 < b < 0x1_0000_0000_0000_0000,
        a < 0x1_0000_0000_0000_0000_0000_0000,
    ensures
        res == half_even(a as nat, b as nat),
{
    let quotient: u128 = a / b;
    let rest: u128 = a % b;
    assert(quotient <= a) by (nonlinear_arith)
        requires
            quotient == a / b,
            b > 0,
    ;
    if 2 * rest < b || (2 * rest == b && quotient % 2 == 0) {
        quotient
    } else {
        quotient + 1
    }
}

fn spacing_of_doubles(n: u64) -> (res: u64)
    ensures
        res == double_spacing(n as nat),
        res == 1 || res * 4_503_599_627_370_496 <= n,
        res >= 1,
    decreases n,
{
    if n < EXACT_DOUBLES {
        1
    } else {
        2 * spacing_of_doubles(n / 2)
    }
}

/// Puts a number of bytes into words.
pub fn format_bytes(bytes: u64) -> (res: String)
    ensures
        res@ == bytes_text(bytes as nat),
{
    let mut res = String::new();
    if bytes >= GB {
        let spacing: u64 = spacing_of_doubles(bytes);
        let steps: u128 = divide_half_even(bytes as u128, spacing as u128);
        proof {
            lemma_half_even_bound(bytes as nat, spacing as nat);
        }
        let double: u128 = steps * spacing as u128;
        assert(double == nearest_double(bytes as nat));
        let hundredths: u128 = divide_half_even(double * 100, GB as u128);
        assert(hundredths <= 0x7fff_ffff_ffff_ffff) by {
            assert(hundredths <= double * 100 / (GB as int) + 1);
        }
        push_decimal(&mut res, (hundredths / 100) as u64);
        push_text(&mut res, ".");
        push_decimal(&mut res, (hundredths % 100 / 10) as u64);
        push_decimal(&mut res, (hundredths % 10) as u64);
        push_text(&mut res, " GB");
        assert(res@ =~= bytes_text(bytes as nat));
    } else if bytes >= MB {
        push_decimal(&mut res, bytes / MB);
        push_text(&mut res, " MB");
        assert(res@ =~= bytes_text(bytes as nat));
    } else if bytes >= KB {
        let tenths: u128 = divide_half_even(bytes as u128 * 10, KB as u128);
        push_decimal(&mut res, (tenths / 10) as u64);
        push_text(&mut res, ".");
        push_decimal(&mut res, (tenths % 10) as u64);
        push_text(&mut res, " KB");
        assert(res@ =~= bytes_text(bytes as nat));
    } else {
        push_decimal(&mut res, bytes);
        push_text(&mut res, " B");
        assert(res@ =~= bytes_text(bytes as nat));
    }
    res
}

/// Rounding a number to a multiple of a step moves it up by no more than that step.
proof fn lemma_half_even_bound(a: nat, b: nat)
    requires
        b > 0,
    ensures
        half_even(a, b) * b <= a + b,
        half_even(a, b) * b + b >= a,
{
    let q = a / b;
    assert(q * b <= a && a < q * b + b) by (nonlinear_arith)
        requires
            q == a / b,
            b > 0,
    ;
    assert((q + 1) * b == q * b + b) by (nonlinear_arith);
}

/// Up to 2^53 bytes, rounding to double precision changes nothing.
pub proof fn law_doubles_are_exact(n: nat)
    requires
        n <= EXACT_DOUBLES,
    ensures
        nearest_double(n) == n,
{
    reveal_with_fuel(double_spacing, 2);
    if n < EXACT_DOUBLES {
        assert(double_spacing(n) == 1);
        assert(half_even(n, 1) == n);
        assert(n * 1 == n) by (nonlinear_arith);
    } else {
        assert(double_spacing(n) == 2);
        assert(half_even(n, 2) == 4_503_599_627_370_496);
    }
}

// ---------------------------------------------------------------------------------------------
// Errors
// ---------------------------------------------------------------------------------------------

/// The gist of an error message: what follows its last colon and space, without white space
/// around it and without full stops at its end.
pub open spec fn gist(error: Seq<char>) -> Seq<char> {
    trimmed_end_of(trimmed(last_part(error, ": "@)), '.')
}

/// Cuts an error message down to its gist.
pub fn condense_error(error: &str) -> (res: String)
    ensures
        res@ == gist(error@),
{
    proof {
        reveal_strlit(": ");
    }
    let last = after_last(error, ": ");
    let bare = trim(last.as_str());
    trim_end_of(bare.as_str(), '.')
}

proof fn lemma_trimmed_start_is_suffix(s: Seq<char>)
    ensures
        trimmed_start(s).len() <= s.len(),
        trimmed_start(s) == s.skip(s.len() - trimmed_start(s).len()),
    decreases s.len(),
{
    if s.len() > 0 && is_space(s[0]) {
        let t = trimmed_start(s);
        lemma_trimmed_start_is_suffix(s.drop_first());
        assert(s.drop_first().skip(s.len() - 1 - t.len()) =~= s.skip(s.len() - t.len()));
    } else {
        assert(s.skip(0) =~= s);
    }
}

proof fn lemma_trimmed_end_is_prefix(s: Seq<char>)
    ensures
        trimmed_end(s).len() <= s.len(),
        trimmed_end(s) == s.take(trimmed_end(s).len() as int),
    decreases s.len(),
{
    if s.len() > 0 && is_space(s.last()) {
        let t = trimmed_end(s);
        lemma_trimmed_end_is_prefix(s.drop_last());
        assert(s.drop_last().take(t.len() as int) =~= s.take(t.len() as int));
    } else {
        assert(s.take(s.len() as int) =~= s);
    }
}

proof fn lemma_trimmed_end_of_is_prefix(s: Seq<char>, c: char)
    ensures
        trimmed_end_of(s, c).len() <= s.len(),
        trimmed_end_of(s, c) == s.take(trimmed_end_of(s, c).len() as int),
        trimmed_end_of(s, c).len() > 0 ==> trimmed_end_of(s, c).last() != c,
    decreases s.len(),
{
    if s.len() > 0 && s.last() == c {
        let t = trimmed_end_of(s, c);
        lemma_trimmed_end_of_is_prefix(s.drop_last(), c);
        assert(s.drop_last().take(t.len() as int) =~= s.take(t.len() as int));
    } else {
        assert(s.take(s.len() as int) =~= s);
    }
}

/// The gist of an error holds no further colon and space to cut at, and no full stop at its
/// end.
pub proof fn law_gist_is_condensed(error: Seq<char>)
    ensures
        !occurs(gist(error), ": "@),
        gist(error).len() > 0 ==> gist(error).last() != '.',
{
    reveal_strlit(": ");
    let sep = ": "@;
    let a = last_part(error, sep);
    let b = trimmed_start(a);
    let c = trimmed_end(b);
    let d = gist(error);
    law_last_part(error, sep);
    lemma_trimmed_start_is_suffix(a);
    lemma_trimmed_end_is_prefix(b);
    lemma_trimmed_end_of_is_prefix(c, '.');
    assert forall|at: int| !#[trigger] occurs_at(d, sep, at) by {
        if occurs_at(d, sep, at) {
            let shifted = at + a.len() - b.len();
            assert(a.subrange(shifted, shifted + sep.len()) =~= d.subrange(at, at + sep.len()));
            assert(occurs_at(a, sep, shifted));
        }
    }
}

} // verus!
