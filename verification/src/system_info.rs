use vstd::prelude::*;

use crate::text::{decimal, digit_char, push_decimal, push_str, string_from_chars};

verus! {

#[verifier::external_type_specification]
#[verifier::external_body]
pub struct ExSystem(sysinfo::System);

/// `sysinfo::System::new_all`: a handle on the machine's state with
/// everything loaded. What it reads depends on the machine, so nothing is
/// stated of it.
#[verifier::external_body]
fn system_new_all() -> sysinfo::System {
    sysinfo::System::new_all()
}

/// `sysinfo::System::refresh_all`: reads the machine's state again. What it
/// reads depends on the machine, so nothing is stated of it.
#[verifier::external_body]
fn system_refresh_all(sys: &mut sysinfo::System) {
    sys.refresh_all()
}

/// `sysinfo::System::refresh_memory`: reads the memory figures again. What it
/// reads depends on the machine, so nothing is stated of it.
#[verifier::external_body]
fn system_refresh_memory(sys: &mut sysinfo::System) {
    sys.refresh_memory()
}

/// The RAM size in bytes that a `sysinfo::System` holds from its last read.
pub uninterp spec fn reported_total(sys: sysinfo::System) -> u64;

/// The used RAM in bytes that a `sysinfo::System` holds from its last read.
pub uninterp spec fn reported_used(sys: sysinfo::System) -> u64;

/// The available RAM in bytes that a `sysinfo::System` holds from its last read.
pub uninterp spec fn reported_available(sys: sysinfo::System) -> u64;

/// The free RAM in bytes that a `sysinfo::System` holds from its last read.
pub uninterp spec fn reported_free(sys: sysinfo::System) -> u64;

/// `sysinfo::System::total_memory`: a read of the figure that the last
/// refresh stored in `sys`, so a function of `sys` alone.
#[verifier::external_body]
fn system_total_memory(sys: &sysinfo::System) -> (r: u64)
    ensures
        r == reported_total(*sys),
{
    sys.total_memory()
}

/// `sysinfo::System::used_memory`: computed from the figures that the last
/// refresh stored in `sys`, so a function of `sys` alone.
#[verifier::external_body]
fn system_used_memory(sys: &sysinfo::System) -> (r: u64)
    ensures
        r == reported_used(*sys),
{
    sys.used_memory()
}

/// `sysinfo::System::available_memory`: a read of the figure that the last
/// refresh stored in `sys`, so a function of `sys` alone.
#[verifier::external_body]
fn system_available_memory(sys: &sysinfo::System) -> (r: u64)
    ensures
        r == reported_available(*sys),
{
    sys.available_memory()
}

/// `sysinfo::System::free_memory`: a read of the figure that the last refresh
/// stored in `sys`, so a function of `sys` alone.
#[verifier::external_body]
fn system_free_memory(sys: &sysinfo::System) -> (r: u64)
    ensures
        r == reported_free(*sys),
{
    sys.free_memory()
}

/// The memory figures of the last refresh, in bytes.
pub struct MemoryView {
    pub total: u64,
    pub used: u64,
    pub available: u64,
    pub free: u64,
}

/// The machine's memory figures, as read at the last refresh.
pub struct SystemInfo {
    sys: sysinfo::System,
    total: u64,
    used: u64,
    available: u64,
    free: u64,
}

impl SystemInfo {
    /// The `sysinfo` handle whose figures the last refresh read.
    pub closed spec fn snapshot(self) -> sysinfo::System {
        self.sys
    }

    /// Whether the stored figures are those that `sys` reports.
    pub open spec fn figures_match(self) -> bool {
        &&& self@.total == reported_total(self.snapshot())
        &&& self@.used == reported_used(self.snapshot())
        &&& self@.available == reported_available(self.snapshot())
        &&& self@.free == reported_free(self.snapshot())
    }
}

impl View for SystemInfo {
    type V = MemoryView;

    closed spec fn view(&self) -> MemoryView {
        MemoryView {
            total: self.total,
            used: self.used,
            available: self.available,
            free: self.free,
        }
    }
}

/// Nearest tie-to-even rounding of `a / d`.
pub open spec fn round_half_even(a: nat, d: nat) -> nat {
    let q = a / d;
    let r = a % d;
    if 2 * r > d || (2 * r == d && q % 2 == 1) {
        q + 1
    } else {
        q
    }
}

/// The distance between neighbouring `f64` values around `n`.
pub open spec fn f64_spacing(n: nat) -> nat
    decreases n,
{
    if n < 0x20_0000_0000_0000 {
        1
    } else {
        2 * f64_spacing(n / 2)
    }
}

/// The `f64` nearest to `n` (ties to even), as `n as f64` gives it.
pub open spec fn nearest_f64(n: nat) -> nat {
    round_half_even(n, f64_spacing(n)) * f64_spacing(n)
}

/// A number of hundredths written with two decimals, as `{:.2}` writes it.
pub open spec fn two_decimals(h: nat) -> Seq<char> {
    decimal(h / 100) + seq!['.', digit_char((h % 100) / 10), digit_char(h % 10)]
}

/// The text of a memory size: gigabytes or megabytes with two decimals
/// (rounded to nearest, ties to even, as `{:.2}` rounds), or whole kilobytes.
pub open spec fn memory_text(bytes: nat) -> Seq<char> {
    if bytes >= 0x4000_0000 {
        two_decimals(round_half_even(100 * nearest_f64(bytes), 0x4000_0000)) + " GB"@
    } else if bytes >= 0x10_0000 {
        two_decimals(round_half_even(100 * bytes, 0x10_0000)) + " MB"@
    } else {
        decimal(bytes / 1024) + " KB"@
    }
}

fn round_half_even_u128(a: u128, d: u128) -> (r: u128)
    requires
        d > 0,
        a < 0x1_0000_0000_0000_0000_0000_0000,
    ensures
        r == round_half_even(a as nat, d as nat),
        r <= a / d + 1,
{
    let q = a / d;
    let rem = a % d;
    assert(q <= a) by (nonlinear_arith)
        requires
            d > 0,
            q == a / d,
    ;
    if rem > d - rem || (rem == d - rem && q % 2 == 1) {
        q + 1
    } else {
        q
    }
}

fn nearest_f64_exec(n: u64) -> (r: u128)
    ensures
        r == nearest_f64(n as nat),
        r <= 0x1_0000_0000_0000_1000,
{
    let mut m: u64 = n;
    let mut step: u128 = 1;
    while m >= 0x20_0000_0000_0000
        invariant
            1 <= step <= 0x1000,
            m as nat == (n as nat) / (step as nat),
            step * m <= n,
            f64_spacing(n as nat) == step * f64_spacing(m as nat),
        decreases m,
    {
        assert(step < 0x800) by (nonlinear_arith)
            requires
                step * m <= n,
                m >= 0x20_0000_0000_0000,
                n < 0x1_0000_0000_0000_0000,
        ;
        let ghost old_m = m;
        let ghost old_step = step;
        m = m / 2;
        step = step * 2;
        proof {
            vstd::arithmetic::div_mod::lemma_div_denominator(
                n as int,
                old_step as int,
                2,
            );
            assert(f64_spacing(old_m as nat) == 2 * f64_spacing(m as nat));
            assert(step * f64_spacing(m as nat) == old_step * (2 * f64_spacing(m as nat)))
                by (nonlinear_arith)
                requires
                    step == 2 * old_step,
            ;
            assert(step * m <= n) by (nonlinear_arith)
                requires
                    old_step * old_m <= n,
                    m == old_m / 2,
                    step == 2 * old_step,
            ;
        }
    }
    assert(f64_spacing(m as nat) == 1);
    assert(step * f64_spacing(m as nat) == step * 1);
    assert(f64_spacing(n as nat) == step);
    let q = round_half_even_u128(n as u128, step);
    assert(q * step <= n + step) by (nonlinear_arith)
        requires
            q <= (n as int) / (step as int) + 1,
            step >= 1,
    ;
    q * step
}

fn push_digit(out: &mut Vec<char>, d: u128)
    requires
        d < 10,
    ensures
        final(out)@ == old(out)@.push(digit_char(d as nat)),
{
    let b: u8 = d as u8;
    out.push((b + 48) as char);
}

/// Appends `h / 100` and two decimals of the hundredths `h`.
fn push_two_decimals(out: &mut Vec<char>, h: u128)
    requires
        h / 100 <= u64::MAX,
    ensures
        final(out)@ == old(out)@ + two_decimals(h as nat),
{
    push_decimal(out, (h / 100) as u64);
    out.push('.');
    push_digit(out, (h % 100) / 10);
    push_digit(out, h % 10);
    assert(out@ =~= old(out)@ + two_decimals(h as nat));
}

impl SystemInfo {
    /// Loads everything the machine reports and reads its memory figures.
    pub fn new() -> (s: Self)
        ensures
            s.figures_match(),
    {
        let mut sys = system_new_all();
        system_refresh_all(&mut sys);
        let total = system_total_memory(&sys);
        let used = system_used_memory(&sys);
        let available = system_available_memory(&sys);
        let free = system_free_memory(&sys);
        SystemInfo { sys, total, used, available, free }
    }

    /// Reads the machine's memory figures again.
    pub fn refresh(&mut self)
        ensures
            final(self).figures_match(),
    {
        system_refresh_memory(&mut self.sys);
        self.total = system_total_memory(&self.sys);
        self.used = system_used_memory(&self.sys);
        self.available = system_available_memory(&self.sys);
        self.free = system_free_memory(&self.sys);
    }

    /// RAM size in bytes, as of the last refresh.
    pub fn total_memory(&self) -> (r: u64)
        ensures
            r == self@.total,
    {
        self.total
    }

    /// Used RAM in bytes, as of the last refresh.
    pub fn used_memory(&self) -> (r: u64)
        ensures
            r == self@.used,
    {
        self.used
    }

    /// Available RAM in bytes, as of the last refresh.
    pub fn available_memory(&self) -> (r: u64)
        ensures
            r == self@.available,
    {
        self.available
    }

    /// Free RAM in bytes, as of the last refresh.
    pub fn free_memory(&self) -> (r: u64)
        ensures
            r == self@.free,
    {
        self.free
    }

    /// A memory size for display: `"x.yz GB"` from 1 GiB on, `"x.yz MB"` from
    /// 1 MiB on, whole `"n KB"` below.
    pub fn format_memory(bytes: u64) -> (s: String)
        ensures
            s@ == memory_text(bytes as nat),
    {
        let mut out: Vec<char> = Vec::new();
        if bytes >= 0x4000_0000 {
            let f = nearest_f64_exec(bytes);
            let h = round_half_even_u128(100 * f, 0x4000_0000);
            assert(h / 100 <= u64::MAX) by (nonlinear_arith)
                requires
                    h <= (100 * f) / 0x4000_0000 + 1,
                    f <= 0x1_0000_0000_0000_1000,
            ;
            push_two_decimals(&mut out, h);
            push_str(&mut out, " GB");
        } else if bytes >= 0x10_0000 {
            let h = round_half_even_u128(100 * (bytes as u128), 0x10_0000);
            assert(h / 100 <= u64::MAX) by (nonlinear_arith)
                requires
                    h <= (100 * bytes) / 0x10_0000 + 1,
                    bytes < 0x4000_0000,
            ;
            push_two_decimals(&mut out, h);
            push_str(&mut out, " MB");
        } else {
            push_decimal(&mut out, bytes / 1024);
            push_str(&mut out, " KB");
        }
        string_from_chars(&out)
    }
}

} // verus!
