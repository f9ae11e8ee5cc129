//! What holds of values as they are shown, and of what is read from the system.

use vstd::prelude::*;

use vstd::arithmetic::power2::{lemma2_to64, lemma_pow2_pos, lemma_pow2_unfold, pow2};

use crate::address::{lossy_text, masked, masked_in};
use crate::app::AppView;
use crate::ethernet::{
    file_count, file_holds, file_number, ip_address, is_plugged_in, law_first_plugged_in,
    plugged_in_from, speed_of, wired_among, with_ethernet, InterfaceView,
};
use crate::format::{
    bar_text, bytes_text, channel_text, color_of, double_spacing, gist, half_even, nearest_double,
    seconds_between, speed_text, uptime_text, Color, EXACT_DOUBLES,
};
use crate::split::{begins_with, joined, occurs, occurs_at, words};
use crate::text::{decimal, is_space, parsed, repeated, trimmed};
use crate::text_laws::{
    law_behind_the_last, law_parts_of_joined, law_trimmed_end_of, law_trimmed_within,
};

verus! {

// ---------------------------------------------------------------------------------------------
// Signal strength
// ---------------------------------------------------------------------------------------------

/// A bar is some blocks, the falloff, and spaces, thirteen characters in all. The blocks are
/// one for each five dBm above -90, to the nearest, none from there down and ten from -40 up.
pub proof fn law_bar_tells_the_signal(dbm: int)
    ensures
        exists|n: nat|
            #![trigger repeated('█', n)]
            {
                &&& n <= 10
                &&& bar_text(dbm) == repeated('█', n) + "▓▒░"@ + repeated(' ', (10 - n) as nat)
                &&& dbm <= -90 ==> n == 0
                &&& dbm >= -40 ==> n == 10
                &&& -90 <= dbm <= -40 ==> -5 <= 2 * (5 * n - (dbm + 90)) <= 5
            },
{
    reveal_strlit("▓▒░");
    let n = crate::format::blocks(dbm);
    assert("▓▒░"@ =~= crate::format::bar_tail());
    assert(bar_text(dbm) == repeated('█', n) + "▓▒░"@ + repeated(' ', (10 - n) as nat));
}

/// A signal is green down to -55 dBm, yellow from there down to -70 dBm, and red below.
pub proof fn law_color_tells_the_signal(dbm: int)
    ensures
        color_of(dbm) == Color::Green <==> dbm >= -55,
        color_of(dbm) == Color::Yellow <==> -70 <= dbm < -55,
        color_of(dbm) == Color::Red <==> dbm < -70,
{
}

// ---------------------------------------------------------------------------------------------
// Numbers with units
// ---------------------------------------------------------------------------------------------

/// Each frequency in a band belongs to the channel that is at most 4 MHz below it; 2484 MHz is
/// channel 14. Outside the bands the frequency is named with its unit.
pub proof fn law_channel_of_every_frequency(mhz: nat)
    ensures
        mhz == 2484 ==> channel_text(mhz) == decimal(14),
        2412 <= mhz < 2484 ==> exists|c: nat|
            channel_text(mhz) == #[trigger] decimal(c) && 2407 + 5 * c <= mhz < 2412 + 5 * c,
        5170 <= mhz <= 5825 ==> exists|c: nat|
            channel_text(mhz) == #[trigger] decimal(c) && 5000 + 5 * c <= mhz < 5005 + 5 * c,
        mhz < 2412 || 2484 < mhz < 5170 || mhz > 5825 ==> channel_text(mhz) == decimal(mhz)
            + " MHz"@,
{
    if 2412 <= mhz < 2484 {
        let c = ((mhz - 2407) / 5) as nat;
        assert(channel_text(mhz) == decimal(c));
    }
    if 5170 <= mhz <= 5825 {
        let c = ((mhz - 5000) / 5) as nat;
        assert(channel_text(mhz) == decimal(c));
    }
}

/// Below an hour, minutes and seconds add up to the time. From an hour on, hours and minutes
/// do, but for less than a minute.
pub proof fn law_uptime_adds_up(secs: nat)
    ensures
        secs < 3600 ==> exists|m: nat, s: nat|
            uptime_text(secs) == #[trigger] decimal(m) + "m "@ + #[trigger] decimal(s) + "s"@ && s
                < 60 && 60 * m + s == secs,
        secs >= 3600 ==> exists|h: nat, m: nat|
            uptime_text(secs) == #[trigger] decimal(h) + "h "@ + #[trigger] decimal(m) + "m"@ && m
                < 60 && 3600 * h + 60 * m <= secs < 3600 * h + 60 * m + 60,
{
    if secs < 3600 {
        let m = secs / 60;
        let s = secs % 60;
        assert(uptime_text(secs) == decimal(m) + "m "@ + decimal(s) + "s"@);
    } else {
        let h = secs / 3600;
        let m = secs % 3600 / 60;
        assert(uptime_text(secs) == decimal(h) + "h "@ + decimal(m) + "m"@);
    }
}

/// The seconds between two moments are whole ones, and none where the later one comes first.
pub proof fn law_seconds_between(since_ms: nat, now_ms: nat)
    ensures
        since_ms <= now_ms ==> since_ms + 1000 * seconds_between(since_ms, now_ms) <= now_ms
            < since_ms + 1000 * seconds_between(since_ms, now_ms) + 1000,
        since_ms > now_ms ==> seconds_between(since_ms, now_ms) == 0,
{
}

/// A speed below 1000 Mbps is named in Mbps, and one from there on in whole Gbps.
pub proof fn law_speed_tells_the_rate(mbps: nat)
    ensures
        mbps < 1000 ==> speed_text(mbps) == decimal(mbps) + "Mbps"@,
        mbps >= 1000 ==> exists|g: nat|
            speed_text(mbps) == #[trigger] decimal(g) + "Gbps"@ && 1000 * g <= mbps < 1000 * g
                + 1000,
{
    if mbps >= 1000 {
        let g = mbps / 1000;
        assert(speed_text(mbps) == decimal(g) + "Gbps"@);
    }
}

/// Dividing to the nearest whole number: the result is off by half at most, and even where it
/// is off by half.
pub proof fn law_half_even(a: nat, b: nat)
    requires
        b > 0,
    ensures
        -(b as int) <= 2 * (half_even(a, b) * b - a) <= b,
        2 * (half_even(a, b) * b - a) == b || 2 * (half_even(a, b) * b - a) == -(b as int)
            ==> half_even(a, b) % 2 == 0,
{
    let q = a / b;
    let r = a % b;
    assert(q * b + r == a && r < b) by (nonlinear_arith)
        requires
            q == a / b,
            r == a % b,
            b > 0,
    ;
    assert((q + 1) * b == q * b + b) by (nonlinear_arith);
}

/// Less than 1024 bytes are named one by one. Kilobytes have one decimal and are off by half of
/// one at most; megabytes are whole ones; gigabytes have two decimals and are off by half of
/// one at most, up to 2^53 bytes.
pub proof fn law_bytes_tell_the_volume(bytes: nat)
    ensures
        bytes < 1024 ==> bytes_text(bytes) == decimal(bytes) + " B"@,
        1024 <= bytes < 1_048_576 ==> exists|whole: nat, tenth: nat|
            #![trigger decimal(whole), decimal(tenth)]
            {
                let error = 1024 * (10 * whole + tenth) - 10 * bytes;
                &&& bytes_text(bytes) == decimal(whole) + "."@ + decimal(tenth) + " KB"@
                &&& tenth < 10
                &&& -1024 <= 2 * error <= 1024
                &&& 2 * error == 1024 || 2 * error == -1024 ==> tenth % 2 == 0
            },
        1_048_576 <= bytes < 1_073_741_824 ==> exists|m: nat|
            bytes_text(bytes) == #[trigger] decimal(m) + " MB"@ && 1_048_576 * m <= bytes
                < 1_048_576 * m + 1_048_576,
        1_073_741_824 <= bytes <= 9_007_199_254_740_992 ==> exists|whole: nat, d: nat, e: nat|
            #![trigger decimal(whole), decimal(d), decimal(e)]
            {
                let error = 1_073_741_824 * (100 * whole + 10 * d + e) - 100 * bytes;
                &&& bytes_text(bytes) == decimal(whole) + "."@ + decimal(d) + decimal(e) + " GB"@
                &&& d < 10 && e < 10
                &&& -1_073_741_824 <= 2 * error <= 1_073_741_824
                &&& 2 * error == 1_073_741_824 || 2 * error == -1_073_741_824 ==> e % 2 == 0
            },
{
    if 1024 <= bytes < 1_048_576 {
        let t = half_even(bytes * 10, 1024);
        lemma_kilobytes(bytes, t);
    }
    if 1_048_576 <= bytes < 1_073_741_824 {
        let m = bytes / 1_048_576;
        assert(bytes_text(bytes) == decimal(m) + " MB"@);
    }
    if 1_073_741_824 <= bytes <= 9_007_199_254_740_992 {
        let h = half_even(bytes * 100, 1_073_741_824);
        lemma_gigabytes(bytes, h);
    }
}

proof fn lemma_kilobytes(bytes: nat, t: nat)
    requires
        1024 <= bytes < 1_048_576,
        t == half_even(bytes * 10, 1024),
    ensures
        bytes_text(bytes) == decimal(t / 10) + "."@ + decimal(t % 10) + " KB"@,
        10 * (t / 10) + t % 10 == t,
        -1024 <= 2 * (1024 * t - 10 * bytes) <= 1024,
        2 * (1024 * t - 10 * bytes) == 1024 || 2 * (1024 * t - 10 * bytes) == -1024 ==> (t % 10) % 2
            == 0,
{
    law_half_even(bytes * 10, 1024);
}

proof fn lemma_gigabytes(bytes: nat, h: nat)
    requires
        1_073_741_824 <= bytes <= 9_007_199_254_740_992,
        h == half_even(bytes * 100, 1_073_741_824),
    ensures
        bytes_text(bytes) == decimal(h / 100) + "."@ + decimal(h % 100 / 10) + decimal(h % 10)
            + " GB"@,
        100 * (h / 100) + 10 * (h % 100 / 10) + h % 10 == h,
        -1_073_741_824 <= 2 * (1_073_741_824 * h - 100 * bytes) <= 1_073_741_824,
        2 * (1_073_741_824 * h - 100 * bytes) == 1_073_741_824 || 2 * (1_073_741_824 * h - 100
            * bytes) == -1_073_741_824 ==> (h % 10) % 2 == 0,
{
    crate::format::law_doubles_are_exact(bytes);
    law_half_even(bytes * 100, 1_073_741_824);
}

/// The nearest double-precision number to a whole number is off by one part in 2^53 at most.
pub proof fn law_nearest_double(n: nat)
    requires
        n >= 9_007_199_254_740_992,
    ensures
        -(n as int) <= 9_007_199_254_740_992 * (nearest_double(n) - n) <= n,
{
    let step = double_spacing(n);
    lemma_double_spacing(n);
    law_half_even(n, step);
    let near = half_even(n, step) * step;
    assert(nearest_double(n) == near);
    let off = near - n;
    assert(9_007_199_254_740_992 * off == 4_503_599_627_370_496 * (2 * off)) by (nonlinear_arith);
    assert(4_503_599_627_370_496 * (2 * off) <= 4_503_599_627_370_496 * step) by (nonlinear_arith)
        requires
            2 * off <= step,
    ;
    assert(4_503_599_627_370_496 * (2 * off) >= -(4_503_599_627_370_496 * step))
        by (nonlinear_arith)
        requires
            2 * off >= -(step as int),
    ;
}

/// From 2^53 on the double-precision numbers between two powers of two lie the same power of
/// two apart, and the one that is taken is the nearest, or the even one of two.
pub proof fn law_doubles_are_evenly_spaced(n: nat, k: nat)
    requires
        k > 0,
        4_503_599_627_370_496 * pow2(k) <= n < 9_007_199_254_740_992 * pow2(k),
    ensures
        exists|q: nat|
            {
                &&& nearest_double(n) == #[trigger] (q * pow2(k))
                &&& -(pow2(k) as int) <= 2 * (q * pow2(k) - n) <= pow2(k)
                &&& 2 * (q * pow2(k) - n) == pow2(k) || 2 * (q * pow2(k) - n) == -(pow2(k) as int)
                    ==> q % 2 == 0
            },
{
    lemma_spacing_is_power(n, k);
    lemma_pow2_pos(k);
    let q = half_even(n, pow2(k));
    law_half_even(n, pow2(k));
    assert(nearest_double(n) == q * pow2(k));
}

proof fn lemma_spacing_is_power(n: nat, k: nat)
    requires
        k > 0,
        4_503_599_627_370_496 * pow2(k) <= n < 9_007_199_254_740_992 * pow2(k),
    ensures
        double_spacing(n) == pow2(k),
    decreases k,
{
    lemma2_to64();
    lemma_pow2_unfold(k);
    lemma_pow2_pos((k - 1) as nat);
    if k == 1 {
        assert(double_spacing(n / 2) == 1);
    } else {
        lemma_spacing_is_power(n / 2, (k - 1) as nat);
    }
}

/// Beyond 2^53 bytes the volume is taken to the nearest double-precision number, and named in
/// gigabytes with two decimals that are off by half of one at most.
pub proof fn law_large_volumes(bytes: nat)
    requires
        bytes >= 9_007_199_254_740_992,
    ensures
        exists|whole: nat, d: nat, e: nat|
            #![trigger decimal(whole), decimal(d), decimal(e)]
            {
                let error = 1_073_741_824 * (100 * whole + 10 * d + e) - 100 * nearest_double(
                    bytes,
                );
                &&& bytes_text(bytes) == decimal(whole) + "."@ + decimal(d) + decimal(e) + " GB"@
                &&& d < 10 && e < 10
                &&& -1_073_741_824 <= 2 * error <= 1_073_741_824
                &&& 2 * error == 1_073_741_824 || 2 * error == -1_073_741_824 ==> e % 2 == 0
            },
{
    let near = nearest_double(bytes);
    let h = half_even(near * 100, 1_073_741_824);
    law_half_even(near * 100, 1_073_741_824);
    let whole = h / 100;
    let d = h % 100 / 10;
    let e = h % 10;
    assert(bytes_text(bytes) == decimal(whole) + "."@ + decimal(d) + decimal(e) + " GB"@);
    assert(100 * whole + 10 * d + e == h);
}

proof fn lemma_double_spacing(n: nat)
    requires
        n >= 4_503_599_627_370_496,
    ensures
        double_spacing(n) >= 1,
        double_spacing(n) * 4_503_599_627_370_496 <= n,
    decreases n,
{
    if n >= EXACT_DOUBLES {
        lemma_double_spacing(n / 2);
    }
}

// ---------------------------------------------------------------------------------------------
// Errors and addresses
// ---------------------------------------------------------------------------------------------

/// An error is cut down to what its last colon and space lead up to, without the full stops at
/// its end. One without them is shown as it is.
pub proof fn law_gist_is_the_end(prefix: Seq<char>, core: Seq<char>, dots: nat)
    requires
        core.len() > 0,
        !occurs(core, ": "@),
        !is_space(core[0]),
        !is_space(core.last()),
        core.last() != '.',
    ensures
        gist(prefix + ": "@ + (core + repeated('.', dots))) == core,
        gist(core + repeated('.', dots)) == core,
        gist(core) == core,
{
    reveal_strlit(": ");
    let sep = ": "@;
    let tail = core + repeated('.', dots);
    assert forall|at: int| !#[trigger] occurs_at(tail, sep, at) by {
        if occurs_at(tail, sep, at) {
            assert(tail.subrange(at, at + 2)[1] == tail[at + 1]);
            assert(at + 1 < core.len());
            assert(core.subrange(at, at + 2) =~= tail.subrange(at, at + 2));
            assert(occurs_at(core, sep, at));
        }
    }
    law_behind_the_last(prefix, sep, tail);
    law_behind_the_last(prefix, sep, core);
    assert(tail[0] == core[0]);
    assert(dots > 0 ==> tail.last() == '.');
    assert(dots == 0 ==> tail =~= core);
    assert(trimmed(tail) == tail);
    assert(trimmed(core) == core);
    law_trimmed_end_of(core, '.', dots);
    assert(core + repeated('.', 0) =~= core);
    law_trimmed_end_of(core, '.', 0);
}

/// White space around the end of an error is left out with the full stops before it.
pub proof fn law_gist_leaves_out_space(
    prefix: Seq<char>,
    left: Seq<char>,
    core: Seq<char>,
    dots: nat,
    right: Seq<char>,
)
    requires
        core.len() > 0,
        !occurs(core, ": "@),
        !is_space(core[0]),
        !is_space(core.last()),
        core.last() != '.' && core.last() != ':',
        forall|i: int| 0 <= i < left.len() ==> is_space(#[trigger] left[i]),
        forall|i: int| 0 <= i < right.len() ==> is_space(#[trigger] right[i]),
    ensures
        gist(prefix + ": "@ + (left + (core + repeated('.', dots)) + right)) == core,
        gist(left + (core + repeated('.', dots)) + right) == core,
{
    reveal_strlit(": ");
    let sep = ": "@;
    let mid = core + repeated('.', dots);
    let tail = left + mid + right;
    assert forall|at: int| !#[trigger] occurs_at(tail, sep, at) by {
        if occurs_at(tail, sep, at) {
            let found = tail.subrange(at, at + 2);
            assert(found[0] == tail[at] && found[1] == tail[at + 1]);
            let i = at - left.len();
            assert(i >= 0) by {
                if i < 0 {
                    assert(tail[at] == left[at]);
                }
            }
            assert(i < mid.len()) by {
                if i >= mid.len() {
                    assert(tail[at] == right[i - mid.len()]);
                }
            }
            assert(i < core.len());
            assert(i + 1 < core.len()) by {
                if i + 1 >= core.len() {
                    assert(tail[at] == core.last());
                }
            }
            assert(core.subrange(i, i + 2) =~= found);
            assert(occurs_at(core, sep, i));
        }
    }
    law_behind_the_last(prefix, sep, tail);
    assert(mid[0] == core[0]);
    assert(dots > 0 ==> mid.last() == '.');
    assert(dots == 0 ==> mid =~= core);
    law_trimmed_within(left, mid, right);
    law_trimmed_end_of(core, '.', dots);
}

/// An address of four numbers is shown with its first two, and any other text is none.
pub proof fn law_mask_keeps_the_first_two(numbers: Seq<Seq<char>>)
    requires
        numbers.len() > 0,
        forall|i: int| 0 <= i < numbers.len() ==> !(#[trigger] numbers[i]).contains('.'),
    ensures
        numbers.len() == 4 ==> masked(joined(numbers, '.')) == Some(
            numbers[0] + "."@ + numbers[1] + ".███.███"@,
        ),
        numbers.len() != 4 ==> masked(joined(numbers, '.')) is None,
{
    law_parts_of_joined(numbers, '.');
}

/// The address is looked for behind the first word `inet`, up to its slash. Without such a word
/// there is none.
pub proof fn law_address_stands_behind_inet(
    output: Seq<char>,
    before: Seq<Seq<char>>,
    address: Seq<char>,
    after: Seq<Seq<char>>,
)
    requires
        !before.contains("inet"@),
    ensures
        words(output) == before ==> masked_in(output) is None,
        words(output) == before.push("inet"@) ==> masked_in(output) is None,
        !address.contains('/') && words(output) == before.push("inet"@).push(address) + after
            ==> masked_in(output) == masked(address),
        forall|bits: Seq<char>|
            !address.contains('/') && words(output) == before.push("inet"@).push(
                #[trigger] (address.push('/') + bits),
            ) + after ==> masked_in(output) == masked(address),
{
    let all = words(output);
    assert forall|i: int| 0 <= i < before.len() implies #[trigger] before[i] != "inet"@ by {
        assert(before.contains(before[i]));
    }
    if all == before || all == before.push("inet"@) {
        crate::text::lemma_index_of(all, "inet"@, before.len());
    }
    if !address.contains('/') && all == before.push("inet"@).push(address) + after {
        crate::text::lemma_index_of(all, "inet"@, before.len());
        crate::split::law_first_part(address, '/');
        assert(all[before.len() + 1int] == address);
        assert(address.take(address.len() as int) =~= address);
        assert(crate::split::first_part(address, '/') == address);
    }
    assert forall|bits: Seq<char>|
        !address.contains('/') && all == before.push("inet"@).push(
            #[trigger] (address.push('/') + bits),
        ) + after implies masked_in(output) == masked(address) by {
        let word = address.push('/') + bits;
        crate::text::lemma_index_of(all, "inet"@, before.len());
        assert(all[before.len() + 1int] == word);
        crate::split::law_first_part(word, '/');
        let part = crate::split::first_part(word, '/');
        assert(word[address.len() as int] == '/');
        assert(word.contains('/'));
        if part.len() < address.len() {
            assert(address[part.len() as int] == '/');
        } else if part.len() > address.len() {
            assert(word.take(part.len() as int)[address.len() as int] == '/');
            assert(part[address.len() as int] == '/');
        }
        assert(part =~= address);
    }
}

// ---------------------------------------------------------------------------------------------
// The wired connection
// ---------------------------------------------------------------------------------------------

/// A file holds a value where that is all it holds but for white space around it, and its
/// number is what the digits there say.
pub proof fn law_files_are_read(
    content: Option<Seq<char>>,
    wanted: Seq<char>,
    n: nat,
    max: nat,
)
    ensures
        file_holds(content, wanted) <==> content is Some && trimmed(content->0) == wanted,
        file_number(content, max) == (match content {
            Some(text) => parsed(trimmed(text), max),
            None => None,
        }),
        content is None ==> !file_holds(content, decimal(n)) && file_number(content, max) is None
            && file_count(content) == 0,
        content matches Some(text) ==> {
            &&& file_holds(content, decimal(n)) <==> trimmed(text) == decimal(n)
            &&& trimmed(text) == decimal(n) && n <= max ==> file_number(content, max) == Some(n)
            &&& trimmed(text) == decimal(n) && n > max ==> file_number(content, max) is None
            &&& trimmed(text) == decimal(n) && n <= u64::MAX ==> file_count(content) == n
            &&& (exists|i: int|
                0 <= i < trimmed(text).len() && !('0' <= #[trigger] trimmed(text)[i] <= '9')
                    && trimmed(text)[i] != '+') ==> file_number(content, max) is None
                && file_count(content) == 0
        },
{
    if let Some(text) = content {
        let t = trimmed(text);
        if t == decimal(n) {
            crate::text::law_decimal_reads_back(n, n);
            if n <= max {
                crate::text::law_decimal_reads_back(n, max);
            }
            if n <= u64::MAX {
                crate::text::law_decimal_reads_back(n, u64::MAX as nat);
            }
        }
        if exists|i: int|
            0 <= i < t.len() && !('0' <= #[trigger] t[i] <= '9') && t[i] != '+' {
            let i = choose|i: int|
                0 <= i < t.len() && !('0' <= #[trigger] t[i] <= '9') && t[i] != '+';
            crate::text_laws::law_only_digits_are_read(t, i, max);
            crate::text_laws::law_only_digits_are_read(t, i, u64::MAX as nat);
        }
    }
}

/// The address of a system is the one in what its command wrote; without that there is none.
pub proof fn law_address_in_output(bytes: Vec<u8>)
    ensures
        ip_address(None) is None,
        ip_address(Some(bytes)) == masked_in(lossy_text(bytes@)),
{
}

/// An interface is wired with its cable in where it is of kind 1, not wireless and has a
/// carrier, whatever it is called, unless its name is `lo` or begins with `veth`, `docker` or
/// `br-`.
pub proof fn law_plugged_in_by_its_facts(i: InterfaceView)
    ensures
        is_plugged_in(i) <==> {
            &&& i.kind is Some && trimmed(i.kind->0) == "1"@
            &&& !i.wireless
            &&& i.carrier is Some && trimmed(i.carrier->0) == "1"@
            &&& i.name != "lo"@
            &&& !begins_with(i.name, "veth"@)
            &&& !begins_with(i.name, "docker"@)
            &&& !begins_with(i.name, "br-"@)
        },
{
}

/// Whether an interface is wired with its cable in, by its facts alone.
pub open spec fn has_cable(i: InterfaceView) -> bool {
    &&& i.kind matches Some(kind) && trimmed(kind) == "1"@
    &&& !i.wireless
    &&& i.carrier matches Some(carrier) && trimmed(carrier) == "1"@
    &&& i.name != "lo"@
    &&& !begins_with(i.name, "veth"@)
    &&& !begins_with(i.name, "docker"@)
    &&& !begins_with(i.name, "br-"@)
}

/// A list that holds an interface with its cable in gives a wired connection, over the first of
/// them, with its name, its counts and the address that was found. A list without one gives
/// none.
pub proof fn law_wired_connection(
    list: Seq<InterfaceView>,
    first: int,
    ip: Option<Seq<char>>,
)
    requires
        0 <= first <= list.len(),
        first < list.len() ==> has_cable(list[first]),
        forall|i: int| 0 <= i < first ==> !has_cable(#[trigger] list[i]),
    ensures
        wired_among(None, ip) is None,
        first == list.len() ==> wired_among(Some(list), ip) is None,
        first < list.len() ==> (wired_among(Some(list), ip) matches Some(e) && {
            &&& e.interface == list[first].name
            &&& e.ipv4_masked == ip
            &&& e.speed_mbps == speed_of(list[first])
            &&& e.rx_bytes == file_count(list[first].rx_bytes)
            &&& e.tx_bytes == file_count(list[first].tx_bytes)
        }),
{
    law_first_plugged_in(list, 0);
    let at = plugged_in_from(list, 0);
    if at < first {
        assert(!has_cable(list[at as int]));
    }
    if first < list.len() {
        assert(is_plugged_in(list[first]));
    }
    assert(at == first);
    if first < list.len() {
        lemma_counts_fit(list[first].rx_bytes);
        lemma_counts_fit(list[first].tx_bytes);
    }
}

/// Taking in the interfaces changes the wired connection and nothing else.
pub proof fn law_wired_connection_is_taken_in(
    app: AppView,
    interfaces: Option<Seq<InterfaceView>>,
    ip: Option<Seq<char>>,
)
    ensures
        with_ethernet(app, interfaces, ip) == (AppView {
            ethernet: wired_among(interfaces, ip),
            ..app
        }),
{
}

proof fn lemma_counts_fit(content: Option<Seq<char>>)
    ensures
        file_count(content) <= u64::MAX,
{
}

/// A link speed is believed between 1 and 99999 Mbps. Any other is left out, and so is one that
/// cannot be read.
pub proof fn law_believed_speed(i: InterfaceView, n: nat)
    ensures
        speed_of(i) matches Some(mbps) ==> 1 <= mbps <= 99_999 && file_number(
            i.speed,
            u32::MAX as nat,
        ) == Some(mbps as nat),
        speed_of(i) is None ==> (file_number(i.speed, u32::MAX as nat) matches Some(mbps) ==> mbps
            == 0 || mbps > 99_999),
        i.speed is None ==> speed_of(i) is None,
        i.speed matches Some(text) ==> (trimmed(text) == decimal(n) ==> speed_of(i) == if 1 <= n
            <= 99_999 {
            Some(n as u32)
        } else {
            None::<u32>
        }),
{
    law_files_are_read(i.speed, decimal(n), n, u32::MAX as nat);
}

} // verus!
