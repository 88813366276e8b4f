use vstd::prelude::*;

verus! {

/// The unit in which the operating system reports the peak resident set size.
#[derive(Clone, Copy, Debug, PartialEq, Eq, Structural)]
pub enum RssUnit {
    /// Kilobytes, as on Unix systems other than Apple's.
    Kilobytes,
    /// Bytes, as on Apple's systems and on Windows.
    Bytes,
}

/// Integer division that rounds toward zero, as Rust's `/` on signed integers does.
pub open spec fn truncated_div(a: int, d: int) -> int {
    if a >= 0 {
        a / d
    } else {
        -((-a) / d)
    }
}

/// How many units of `unit` make one mebibyte.
pub open spec fn units_per_mib(unit: RssUnit) -> int {
    match unit {
        RssUnit::Kilobytes => 1024,
        RssUnit::Bytes => 1048576,
    }
}

/// The peak resident set size in whole mebibytes.
pub open spec fn spec_max_rss_mib(max_rss: int, unit: RssUnit) -> int {
    truncated_div(max_rss, units_per_mib(unit))
}

/// The family of systems the program runs on, as far as the peak resident set size is
/// concerned.
#[derive(Clone, Copy, Debug, PartialEq, Eq, Structural)]
pub enum Platform {
    /// Apple's systems, whose `getrusage` reports bytes.
    Apple,
    /// The other Unix systems, whose `getrusage` reports kilobytes.
    OtherUnix,
    /// Windows, whose peak working set size is reported in bytes.
    Windows,
}

/// The unit in which `platform` reports the peak resident set size.
pub fn rss_unit(platform: Platform) -> (unit: RssUnit)
    ensures
        unit == (if platform == Platform::OtherUnix { RssUnit::Kilobytes } else { RssUnit::Bytes }),
{
    match platform {
        Platform::OtherUnix => RssUnit::Kilobytes,
        _ => RssUnit::Bytes,
    }
}

/// Converts the peak resident set size, as reported in `unit`, into mebibytes,
/// rounding toward zero.
pub fn max_rss_mib(max_rss: i64, unit: RssUnit) -> (mib: i64)
    ensures
        mib == spec_max_rss_mib(max_rss as int, unit),
        ({
            let d: int = if unit == RssUnit::Kilobytes { 1024 } else { 1048576 };
            &&& max_rss >= 0 ==> mib * d <= max_rss < (mib + 1) * d
            &&& max_rss < 0 ==> (mib - 1) * d < max_rss <= mib * d
        }),
{
    proof {
        lemma_mib_whole_mebibytes(max_rss as int, unit);
    }
    match unit {
        RssUnit::Kilobytes => max_rss / 1024,
        RssUnit::Bytes => max_rss / (1024 * 1024),
    }
}

/// The conversion gives the whole number of mebibytes in the amount, rounding toward
/// zero: with `d` units to a mebibyte (1024 kilobytes or 1048576 bytes), a result `q`
/// of a non-negative amount has `q * d <= amount < (q + 1) * d`, and that of a negative
/// amount has `(q - 1) * d < amount <= q * d`.
pub proof fn lemma_mib_whole_mebibytes(max_rss: int, unit: RssUnit)
    ensures
        ({
            let q = spec_max_rss_mib(max_rss, unit);
            let d: int = if unit == RssUnit::Kilobytes { 1024 } else { 1048576 };
            &&& max_rss >= 0 ==> q * d <= max_rss < (q + 1) * d
            &&& max_rss < 0 ==> (q - 1) * d < max_rss <= q * d
        }),
{
    let d: int = if unit == RssUnit::Kilobytes { 1024 } else { 1048576 };
    assert(units_per_mib(unit) == d);
    if max_rss >= 0 {
        let q = max_rss / d;
        assert(q * d <= max_rss < (q + 1) * d) by (nonlinear_arith)
            requires
                q == max_rss / d,
                d > 0,
                max_rss >= 0,
        ;
    } else {
        let m = -max_rss;
        let p = m / d;
        assert(p * d <= m < (p + 1) * d) by (nonlinear_arith)
            requires
                p == m / d,
                d > 0,
                m >= 0,
        ;
        assert((-p - 1) * d < max_rss <= -p * d) by (nonlinear_arith)
            requires
                p * d <= m < (p + 1) * d,
                m == -max_rss,
        ;
    }
}

/// The same amount gives the same number of mebibytes whichever unit it is reported in:
/// `kib` kilobytes and `1024 * kib` bytes convert alike.
pub proof fn lemma_units_agree(kib: int)
    ensures
        spec_max_rss_mib(kib, RssUnit::Kilobytes) == spec_max_rss_mib(kib * 1024, RssUnit::Bytes),
{
    if kib >= 0 {
        assert((kib * 1024) / 1048576int == kib / 1024) by (nonlinear_arith)
            requires
                kib >= 0,
        ;
    } else {
        let m = -kib;
        assert((m * 1024) / 1048576int == m / 1024) by (nonlinear_arith)
            requires
                m >= 0,
        ;
        assert(-(kib * 1024) == m * 1024);
    }
}

/// The number of mebibytes never exceeds the amount in its own unit, and has its sign.
pub proof fn lemma_mib_bounded(max_rss: int, unit: RssUnit)
    ensures
        max_rss >= 0 ==> 0 <= spec_max_rss_mib(max_rss, unit) <= max_rss,
        max_rss <= 0 ==> max_rss <= spec_max_rss_mib(max_rss, unit) <= 0,
{
    let d = units_per_mib(unit);
    assert(d >= 1);
    if max_rss >= 0 {
        assert(0 <= max_rss / d <= max_rss) by (nonlinear_arith)
            requires
                max_rss >= 0,
                d >= 1,
        ;
    } else {
        assert(0 <= (-max_rss) / d <= -max_rss) by (nonlinear_arith)
            requires
                -max_rss >= 0,
                d >= 1,
        ;
    }
}

} // verus!
