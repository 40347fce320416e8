//! What holds of downloads and of how they are reported.
use vstd::prelude::*;

#[allow(unused_imports)]
use crate::decimal::{double, nearest, rounded, saturated, seconds, spacing, MANTISSAS};
#[allow(unused_imports)]
use crate::error::IoSource;
#[allow(unused_imports)]
use crate::fetch::{
    agree, bytes_text, download_next, duration_text, one_decimal, percent_tenths, progress_text,
    rate, tenths_of, two_decimals, unchanged, DownloadEvent, DownloadFailure, DownloadPhase,
    DownloadState, FetchMetadata, GIB, KIB, MIB, REPORT_INTERVAL,
};
#[allow(unused_imports)]
use crate::text::{dec, zero_padded};

verus! {

/// A file is unchanged where the server gives the same tag, or the same date, as it did before; what
/// is empty or missing on either side says nothing.
pub proof fn when_a_file_is_unchanged(a: FetchMetadata, b: FetchMetadata)
    ensures
        unchanged(a, b) <==> (a.etag is Some && b.etag is Some && a.etag->0@ == b.etag->0@
            && a.etag->0@.len() > 0) || (a.last_modified is Some && b.last_modified is Some
            && a.last_modified->0@ == b.last_modified->0@ && a.last_modified->0@.len() > 0),
        unchanged(a, b) <==> agree(a.etag, b.etag) || agree(a.last_modified, b.last_modified),
{
}

/// A download asks, creates its file, and reads and writes piece by piece; at the end it flushes and
/// moves the file. Only an answer from 200 to 299 goes ahead. A report is made where the last one is
/// 200 ms old or older. What fails before there is a file ends the download; what fails afterwards
/// removes the file first.
pub proof fn how_a_download_goes(
    s: DownloadState,
    status: u16,
    length: Option<u64>,
    why: String,
    e: IoSource,
    len: u64,
    age: u64,
    f: DownloadFailure,
)
    ensures
        s.phase is Request ==> {
            let next = download_next(s, DownloadEvent::Answer { status, length });
            &&& 200 <= status <= 299 ==> next.phase is Create && next.total == length && next.got
                == s.got
            &&& status < 200 || status > 299 ==> next.phase == DownloadPhase::Failed(
                DownloadFailure::Status(status),
            )
            &&& download_next(s, DownloadEvent::Broken(why)).phase == DownloadPhase::Failed(
                DownloadFailure::Request(why),
            )
        },
        s.phase is Create ==> {
            &&& download_next(s, DownloadEvent::Done) == (DownloadState {
                phase: DownloadPhase::Read,
                ..s
            })
            &&& download_next(s, DownloadEvent::Failed(e)) == (DownloadState {
                phase: DownloadPhase::Failed(DownloadFailure::Create(e)),
                ..s
            })
        },
        s.phase is Read ==> {
            &&& download_next(s, DownloadEvent::Piece(0)) == (DownloadState {
                phase: DownloadPhase::Flush,
                ..s
            })
            &&& len > 0 ==> download_next(s, DownloadEvent::Piece(len)) == (DownloadState {
                phase: DownloadPhase::Write { len },
                ..s
            })
            &&& download_next(s, DownloadEvent::Broken(why)) == (DownloadState {
                phase: DownloadPhase::Discard(DownloadFailure::Read(why)),
                ..s
            })
        },
        s.phase == (DownloadPhase::Write { len }) ==> {
            let next = download_next(s, DownloadEvent::Written { age });
            &&& next.got == (s.got + len) as u64
            &&& next.total == s.total
            &&& age >= 200 ==> next.phase is Report
            &&& age < 200 ==> next.phase is Read
            &&& download_next(s, DownloadEvent::Failed(e)) == (DownloadState {
                phase: DownloadPhase::Discard(DownloadFailure::Write(e)),
                ..s
            })
        },
        s.phase is Report ==> download_next(s, DownloadEvent::Done) == (DownloadState {
            phase: DownloadPhase::Read,
            ..s
        }),
        s.phase == DownloadPhase::Discard(f) ==> download_next(s, DownloadEvent::Done) == (
        DownloadState { phase: DownloadPhase::Failed(f), ..s }),
        s.phase is Flush ==> {
            &&& download_next(s, DownloadEvent::Done) == (DownloadState {
                phase: DownloadPhase::Rename,
                ..s
            })
            &&& download_next(s, DownloadEvent::Failed(e)) == (DownloadState {
                phase: DownloadPhase::Discard(DownloadFailure::Flush(e)),
                ..s
            })
        },
        s.phase is Rename ==> {
            &&& download_next(s, DownloadEvent::Done) == (DownloadState {
                phase: DownloadPhase::Finished,
                ..s
            })
            &&& download_next(s, DownloadEvent::Failed(e)) == (DownloadState {
                phase: DownloadPhase::Discard(DownloadFailure::Rename(e)),
                ..s
            })
        },
        REPORT_INTERVAL == 200,
{
}

/// The nearest whole number is at most a half away; where it is a half away it is even; and a whole
/// quotient is itself.
pub proof fn the_nearest_is_at_most_a_half_away(n: nat, d: nat, q: nat)
    requires
        d > 0,
    ensures
        2 * n <= 2 * (nearest(n, d) * d) + d,
        2 * (nearest(n, d) * d) <= 2 * n + d,
        2 * n == 2 * (nearest(n, d) * d) + d || 2 * (nearest(n, d) * d) == 2 * n + d ==> nearest(
            n,
            d,
        ) % 2 == 0,
        nearest(q * d, d) == q,
{
    let w = n / d;
    let r = n % d;
    assert(n == w * d + r && 0 <= r < d) by (nonlinear_arith)
        requires
            d > 0,
            w == n / d,
            r == n % d,
    ;
    assert((w + 1) * d == w * d + d) by (nonlinear_arith);
    assert((q * d) / d == q && (q * d) % d == 0) by (nonlinear_arith)
        requires
            d > 0,
    ;
}

/// Doubles lie one apart up to 2 to the 53rd and keep every whole number there; beyond it they lie so
/// far apart that a number takes from 2 to the 52nd to 2 to the 53rd steps.
pub proof fn how_far_doubles_lie_apart(n: nat, d: nat)
    requires
        d > 0,
    ensures
        n < 0x20_0000_0000_0000 * d ==> spacing(n, d) == 1,
        n >= 0x20_0000_0000_0000 * d ==> 0x10_0000_0000_0000 * (d * spacing(n, d)) <= n
            < 0x20_0000_0000_0000 * (d * spacing(n, d)),
        n < 0x20_0000_0000_0000 ==> double(n, 1) == n,
        MANTISSAS == 0x20_0000_0000_0000,
{
    lemma_spacing(n, d);
    if n < 0x20_0000_0000_0000 {
        lemma_spacing(n, 1);
        the_nearest_is_at_most_a_half_away(n, 1, n);
        assert(nearest(n * 1, 1) == n);
    }
}

proof fn lemma_spacing(n: nat, d: nat)
    requires
        d > 0,
    ensures
        n < 0x20_0000_0000_0000 * d ==> spacing(n, d) == 1,
        n >= 0x20_0000_0000_0000 * d ==> 0x10_0000_0000_0000 * (d * spacing(n, d)) <= n
            < 0x20_0000_0000_0000 * (d * spacing(n, d)),
    decreases
            if n >= MANTISSAS * d {
                n - MANTISSAS * d + 1
            } else {
                0
            },
{
    if n >= MANTISSAS * d {
        lemma_spacing(n, 2 * d);
        let s = spacing(n, 2 * d);
        assert(d * (2 * s) == (2 * d) * s) by (nonlinear_arith);
        if n < 0x20_0000_0000_0000 * (2 * d) {
            assert(s == 1);
            assert((2 * d) * s == 2 * d) by (nonlinear_arith)
                requires
                    s == 1,
            ;
        }
    }
}

/// Amounts below 1024 are told in bytes, those below 1024 times as much in KiB, and so on up to GiB;
/// a whole number of a unit has no fraction.
pub proof fn in_which_unit_an_amount_is_told(n: u64, k: nat)
    ensures
        n < 1024 ==> bytes_text(n) == dec(n as nat) + " B"@,
        1024 <= n < 1048576 ==> " KiB"@.is_suffix_of(bytes_text(n)),
        1048576 <= n < 1073741824 ==> " MiB"@.is_suffix_of(bytes_text(n)),
        n >= 1073741824 ==> " GiB"@.is_suffix_of(bytes_text(n)),
        0 < k < 1024 ==> bytes_text((k * 1024) as u64) == dec(k) + ".0 KiB"@,
        0 < k < 1024 ==> bytes_text((k * 1048576) as u64) == dec(k) + ".0 MiB"@,
        0 < k < 1024 ==> bytes_text((k * 1073741824) as u64) == dec(k) + ".00 GiB"@,
        KIB == 1024 && MIB == 1048576 && GIB == 1073741824,
{
    let t = bytes_text(n);
    if n >= 1024 {
        let unit = if n >= GIB {
            " GiB"@
        } else if n >= MIB {
            " MiB"@
        } else {
            " KiB"@
        };
        assert(unit =~= t.subrange(t.len() - unit.len(), t.len() as int));
    }
    if 0 < k < 1024 {
        how_far_doubles_lie_apart(k * 1024, 1);
        how_far_doubles_lie_apart(k * 1048576, 1);
        how_far_doubles_lie_apart(k * 1073741824, 1);
        assert(k * 1024 * 10 == (k * 10) * 1024);
        assert(k * 1048576 * 10 == (k * 10) * 1048576);
        assert(k * 1073741824 * 100 == (k * 100) * 1073741824);
        the_nearest_is_at_most_a_half_away(0, 1024, k * 10);
        the_nearest_is_at_most_a_half_away(0, 1048576, k * 10);
        the_nearest_is_at_most_a_half_away(0, 1073741824, k * 100);
        lemma_no_fraction(k);
    }
}

proof fn lemma_no_fraction(k: nat)
    ensures
        one_decimal(k * 10) + " KiB"@ == dec(k) + ".0 KiB"@,
        one_decimal(k * 10) + " MiB"@ == dec(k) + ".0 MiB"@,
        one_decimal(k * 10) + "s"@ == dec(k) + ".0s"@,
        two_decimals(k * 100) + " GiB"@ == dec(k) + ".00 GiB"@,
{
    reveal_strlit(".");
    reveal_strlit(" KiB");
    reveal_strlit(" MiB");
    reveal_strlit(" GiB");
    reveal_strlit("s");
    reveal_strlit(".0 KiB");
    reveal_strlit(".0 MiB");
    reveal_strlit(".00 GiB");
    reveal_strlit(".0s");
    assert((k * 10) / 10 == k && (k * 10) % 10 == 0);
    assert((k * 100) / 100 == k && (k * 100) % 100 == 0);
    assert(dec(0) =~= seq!['0']);
    assert(zero_padded(dec(0), 2) =~= seq!['0', '0']);
    assert(one_decimal(k * 10) + " KiB"@ =~= dec(k) + ".0 KiB"@);
    assert(one_decimal(k * 10) + " MiB"@ =~= dec(k) + ".0 MiB"@);
    assert(one_decimal(k * 10) + "s"@ =~= dec(k) + ".0s"@);
    assert(two_decimals(k * 100) + " GiB"@ =~= dec(k) + ".00 GiB"@);
}

/// A time of an hour or more is told in hours and minutes, one of a minute or more in minutes and
/// seconds, and a shorter one in seconds with one decimal.
pub proof fn how_a_time_is_told(h: nat, m: nat, s: nat, secs: u64, nanos: u32)
    requires
        m < 60,
        s < 60,
        secs == h * 3600 + m * 60 + s,
    ensures
        h > 0 ==> duration_text(secs, nanos) == dec(h) + "h"@ + dec(m) + "m"@,
        h == 0 && m > 0 ==> duration_text(secs, nanos) == dec(m) + "m"@ + dec(s) + "s"@,
        h == 0 && m == 0 ==> "s"@.is_suffix_of(duration_text(secs, nanos)) && duration_text(
            secs,
            nanos,
        ) == one_decimal(tenths_of(s, nanos as nat)) + "s"@,
{
    assert(secs as nat / 3600 == h);
    assert((secs as nat % 3600) / 60 == m);
    assert(secs as nat % 60 == s);
    if h == 0 && m == 0 {
        let t = duration_text(secs, nanos);
        assert("s"@ =~= t.subrange(t.len() - "s"@.len(), t.len() as int));
    }
}

/// A decimal is told behind a point, and two of them always with both digits.
pub proof fn how_decimals_are_told(whole: nat, part: nat)
    ensures
        part < 10 ==> one_decimal(whole * 10 + part) == dec(whole) + "."@ + dec(part),
        part < 100 ==> two_decimals(whole * 100 + part) == dec(whole) + "."@ + zero_padded(
            dec(part),
            2,
        ),
        saturated(whole) <= u64::MAX,
        whole <= u64::MAX ==> saturated(whole) == whole,
{
    if part < 10 {
        assert((whole * 10 + part) / 10 == whole && (whole * 10 + part) % 10 == part);
    }
    if part < 100 {
        assert((whole * 100 + part) / 100 == whole && (whole * 100 + part) % 100 == part);
    }
}

/// A report tells what has arrived and how fast, and where the whole is known that too, with the
/// share that has arrived.
pub proof fn what_a_report_tells(got: u64, total: u64, rate: u64)
    ensures
        total > 0 ==> progress_text(got, Some(total), rate) == "\r  "@ + bytes_text(got) + " / "@
            + bytes_text(total) + " ("@ + one_decimal(percent_tenths(got, total))
            + "%) \u{2014} "@ + bytes_text(rate) + "/s          "@,
        progress_text(got, None, rate) == "\r  "@ + bytes_text(got) + " \u{2014} "@ + bytes_text(
            rate,
        ) + "/s          "@,
        progress_text(got, Some(0), rate) == progress_text(got, None, rate),
{
}

/// The digits of an amount are those nearest to it, and even where two are.
pub proof fn the_digits_of_an_amount_are_the_nearest(n: u64) -> (t: nat)
    requires
        1024 <= n < 0x20_0000_0000_0000,
    ensures
        n < 1048576 ==> {
            &&& bytes_text(n) == one_decimal(t) + " KiB"@
            &&& 20 * n <= 2 * (t * 1024) + 1024
            &&& 2 * (t * 1024) <= 20 * n + 1024
            &&& 20 * n == 2 * (t * 1024) + 1024 || 2 * (t * 1024) == 20 * n + 1024 ==> t % 2 == 0
        },
        1048576 <= n < 1073741824 ==> {
            &&& bytes_text(n) == one_decimal(t) + " MiB"@
            &&& 20 * n <= 2 * (t * 1048576) + 1048576
            &&& 2 * (t * 1048576) <= 20 * n + 1048576
            &&& 20 * n == 2 * (t * 1048576) + 1048576 || 2 * (t * 1048576) == 20 * n + 1048576
                ==> t % 2 == 0
        },
        n >= 1073741824 ==> {
            &&& bytes_text(n) == two_decimals(t) + " GiB"@
            &&& 200 * n <= 2 * (t * 1073741824) + 1073741824
            &&& 2 * (t * 1073741824) <= 200 * n + 1073741824
            &&& 200 * n == 2 * (t * 1073741824) + 1073741824 || 2 * (t * 1073741824) == 200 * n
                + 1073741824 ==> t % 2 == 0
        },
{
    how_far_doubles_lie_apart(n as nat, 1);
    if n < 1048576 {
        the_nearest_is_at_most_a_half_away((n * 10) as nat, 1024, 0);
        nearest((n * 10) as nat, 1024)
    } else if n < 1073741824 {
        the_nearest_is_at_most_a_half_away((n * 10) as nat, 1048576, 0);
        nearest((n * 10) as nat, 1048576)
    } else {
        the_nearest_is_at_most_a_half_away((n * 100) as nat, 1073741824, 0);
        nearest((n * 100) as nat, 1073741824)
    }
}

/// A quotient that is whole, and not too large, is kept.
proof fn lemma_rounded_whole(q: nat, d: nat)
    requires
        d > 0,
        q < 0x20_0000_0000_0000,
    ensures
        rounded(q * d, d).1 > 0,
        rounded(q * d, d).0 == q * rounded(q * d, d).1,
    decreases 0x20_0000_0000_0000 - q,
{
    let n = q * d;
    assert(n == 0 <==> q == 0) by (nonlinear_arith)
        requires
            n == q * d,
            d > 0,
    ;
    assert(n < 0x20_0000_0000_0000 * d) by (nonlinear_arith)
        requires
            n == q * d,
            d > 0,
            q < 0x20_0000_0000_0000,
    ;
    if n == 0 || 2 * n >= MANTISSAS * d {
        how_far_doubles_lie_apart(n, d);
        the_nearest_is_at_most_a_half_away(0, d, q);
        assert(spacing(n, d) == 1);
        assert(d * 1 == d);
        assert(double(n, d) == q);
    } else {
        assert(2 * q < 0x20_0000_0000_0000) by (nonlinear_arith)
            requires
                2 * (q * d) < 0x20_0000_0000_0000 * d,
                d > 0,
        ;
        lemma_rounded_whole(2 * q, d);
        assert((2 * q) * d == 2 * n) by (nonlinear_arith)
            requires
                n == q * d,
        ;
        let (a, b) = rounded(2 * n, d);
        assert((2 * q) * b == q * (2 * b)) by (nonlinear_arith);
    }
}

proof fn lemma_whole_seconds(secs: nat)
    requires
        secs < 0x20_0000_0000_0000,
    ensures
        seconds(secs, 0).1 > 0,
        seconds(secs, 0).0 == secs * seconds(secs, 0).1,
{
    how_far_doubles_lie_apart(secs, 1);
    lemma_rounded_whole(0, 1_000_000_000);
    let f = rounded(0, 1_000_000_000);
    assert(0 * 1_000_000_000 == 0nat);
    assert(double(0, 1_000_000_000) == 0) by {
        how_far_doubles_lie_apart(0, 1_000_000_000);
    }
    assert(f == (0nat, 1nat));
    assert(double(secs, 1) * 1 + 0 == secs);
    lemma_rounded_whole(secs, 1);
    assert(secs * 1 == secs);
}

/// Whole seconds are told as such, and what comes at so many bytes a second comes at that rate.
pub proof fn whole_seconds_and_rates_are_exact(secs: u64, q: nat)
    requires
        secs < 0x20_0000_0000_0000,
        q * secs < 0x20_0000_0000_0000,
        q < 0x20_0000_0000_0000,
    ensures
        tenths_of(secs as nat, 0) == 10 * secs,
        secs > 0 ==> rate((q * secs) as u64, secs, 0) == q,
        rate((q * secs) as u64, 0, 0) == 0,
{
    lemma_whole_seconds(secs as nat);
    lemma_whole_seconds(0);
    let t = seconds(secs as nat, 0);
    the_nearest_is_at_most_a_half_away(0, t.1, (10 * secs) as nat);
    assert(t.0 * 10 == (10 * secs) * t.1) by (nonlinear_arith)
        requires
            t.0 == secs * t.1,
    ;
    if secs > 0 {
        let n = (q * secs) as nat;
        how_far_doubles_lie_apart(n, 1);
        assert(n * t.1 == q * t.0) by (nonlinear_arith)
            requires
                n == q * secs,
                t.0 == secs * t.1,
        ;
        assert(t.0 > 0) by (nonlinear_arith)
            requires
                t.0 == secs * t.1,
                secs > 0,
                t.1 > 0,
        ;
        lemma_rounded_whole(q, t.0);
        let r = rounded(n * t.1, t.0);
        assert(r.0 / r.1 == q) by (nonlinear_arith)
            requires
                r.0 == q * r.1,
                r.1 > 0,
        ;
    }
    assert(0 * seconds(0, 0).1 == 0);
}

/// Nothing of a file is none of it, and all of it is all; no more than that is ever told.
pub proof fn a_whole_file_is_a_hundred_percent(part: u64, total: u64)
    requires
        0 < total < 0x20_0000_0000_0000,
    ensures
        percent_tenths(total, total) == 1000,
        percent_tenths(0, total) == 0,
        percent_tenths(part, total) <= 1000,
{
    let t = total as nat;
    how_far_doubles_lie_apart(t, 1);
    how_far_doubles_lie_apart(0, 1);
    lemma_rounded_whole(1, t);
    assert(1 * t == t);
    let one = rounded(t, t);
    lemma_rounded_whole(100, one.1);
    let all = rounded(one.0 * 100, one.1);
    assert(one.0 * 100 == 100 * one.1);
    the_nearest_is_at_most_a_half_away(0, all.1, 1000);
    assert(all.0 * 10 == 1000 * all.1);
    lemma_rounded_whole(0, t);
    assert(0 * t == 0) by (nonlinear_arith);
    let none = rounded(0, t);
    assert(none.0 == 0) by (nonlinear_arith)
        requires
            none.0 == 0 * none.1,
    ;
    lemma_rounded_whole(0, none.1);
    assert(0 * none.1 == 0) by (nonlinear_arith);
    let zero = rounded(0, none.1);
    assert(zero.0 == 0) by (nonlinear_arith)
        requires
            zero.0 == 0 * zero.1,
    ;
    the_nearest_is_at_most_a_half_away(0, zero.1, 0);
    assert(0 * zero.1 == 0) by (nonlinear_arith);
    lemma_at_most(part, total);
}

proof fn lemma_at_most(part: u64, total: u64)
    requires
        0 < total < 0x20_0000_0000_0000,
    ensures
        percent_tenths(part, total) <= 1000,
{
    how_far_doubles_lie_apart(total as nat, 1);
    let share = rounded(double(part as nat, 1), total as nat);
    lemma_rounded_positive(double(part as nat, 1), total as nat);
    let p = rounded(share.0 * 100, share.1);
    lemma_rounded_positive(share.0 * 100, share.1);
    if p.0 <= 100 * p.1 {
        let k = nearest(p.0 * 10, p.1);
        the_nearest_is_at_most_a_half_away(p.0 * 10, p.1, 0);
        assert(k <= 1000) by (nonlinear_arith)
            requires
                2 * (k * p.1) <= 2 * (p.0 * 10) + p.1,
                p.0 <= 100 * p.1,
                p.1 > 0,
        ;
    }
}

proof fn lemma_rounded_positive(n: nat, d: nat)
    requires
        d > 0,
    ensures
        rounded(n, d).1 > 0,
    decreases
            if 2 * n < MANTISSAS * d {
                MANTISSAS * d - n
            } else {
                0
            },
{
    if n != 0 && 2 * n < MANTISSAS * d {
        lemma_rounded_positive(2 * n, d);
    }
}

} // verus!
