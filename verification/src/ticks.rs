//! Tick-counter usability: is the x86_64 time-stamp counter fit to measure
//! with?
//!
//! Two facts decide it: the CPU advertises an invariant TSC
//! (`CPUID.80000007h:EDX[bit 8]`), and, on Linux, the kernel selected
//! `tsc` as its clocksource. The CPU is asked here; the kernel's choice is
//! read from sysfs by the caller and handed in as the file's contents.

use vstd::prelude::*;

verus! {

/// Refusal when the CPU does not advertise an invariant TSC.
pub const NO_INVARIANT_TSC: &'static str = "invariant TSC not supported by this CPU (CPUID.80000007h:EDX[bit 8] = 0); tprobe requires a fixed-rate, non-stopping TSC";

/// Refusal when the kernel did not select the TSC as its clocksource.
pub const KERNEL_REJECTED_TSC: &'static str = "TSC not selected as the kernel clocksource — the CPU advertises invariant TSC, but the kernel has rejected it (likely a sync or drift issue)";

/// The four registers a `cpuid` query returns.
struct CpuidRegs {
    eax: u32,
    ebx: u32,
    ecx: u32,
    edx: u32,
}

/// Extended leaf that reports the highest extended leaf supported.
pub const EXT_MAX_LEAF: u32 = 0x8000_0000;

/// Extended leaf whose EDX bit 8 is the invariant-TSC flag.
pub const EXT_POWER_LEAF: u32 = 0x8000_0007;

/// Whether bit 8 of the power-management leaf's EDX is set.
pub open spec fn invariant_tsc_bit(edx: u32) -> bool {
    (edx / 256) % 2 == 1
}

/// The processor answered a `cpuid` query for `leaf` with these registers.
///
/// This only records that the answer was given; it does not claim that the
/// answer is a function of the leaf (another machine, or another query,
/// may answer otherwise).
pub uninterp spec fn cpuid_reported(leaf: u32, eax: u32, ebx: u32, ecx: u32, edx: u32) -> bool;

/// Query the processor with `cpuid` for `leaf` (sub-leaf 0).
///
/// Calls `core::arch::x86_64::__cpuid`, which returns the instruction's
/// four registers. The contract claims only that these are the registers
/// the processor answered for `leaf`; what they hold is a fact about the
/// machine and is not stated.
#[verifier::external_body]
fn cpuid(leaf: u32) -> (regs: CpuidRegs)
    ensures
        cpuid_reported(leaf, regs.eax, regs.ebx, regs.ecx, regs.edx),
{
    let r = core::arch::x86_64::__cpuid(leaf);
    CpuidRegs { eax: r.eax, ebx: r.ebx, ecx: r.ecx, edx: r.edx }
}

/// Whether `cpuid` answers advertise an invariant TSC: the power leaf must
/// exist (`max_extended_leaf >= 0x8000_0007`) and its EDX must have bit 8
/// set. The TSC then runs at a constant rate regardless of P-states and
/// keeps ticking in deep C-states.
pub fn invariant_tsc_advertised(max_extended_leaf: u32, power_edx: u32) -> (r: bool)
    ensures
        r == (max_extended_leaf >= EXT_POWER_LEAF && invariant_tsc_bit(power_edx)),
{
    if max_extended_leaf < EXT_POWER_LEAF {
        return false;
    }
    assert(((power_edx >> 8u32) & 1u32 == 1u32) == ((power_edx / 256) % 2 == 1)) by (bit_vector);
    (power_edx >> 8u32) & 1u32 == 1u32
}

/// Ask this CPU whether it advertises an invariant TSC. The highest
/// extended leaf is queried first; the power leaf only when that answer
/// reports it exists, and then its EDX bit 8 is the answer.
pub fn has_invariant_tsc() -> (r: bool)
    ensures
        exists|a: u32, b: u32, c: u32, d: u32|
            #[trigger] cpuid_reported(EXT_MAX_LEAF, a, b, c, d) && (if a < EXT_POWER_LEAF {
                !r
            } else {
                exists|a2: u32, b2: u32, c2: u32, d2: u32|
                    #[trigger] cpuid_reported(EXT_POWER_LEAF, a2, b2, c2, d2) && r
                        == invariant_tsc_bit(d2)
            }),
{
    let top = cpuid(EXT_MAX_LEAF);
    let max_ext = top.eax;
    if max_ext < EXT_POWER_LEAF {
        return false;
    }
    let power = cpuid(EXT_POWER_LEAF);
    invariant_tsc_advertised(max_ext, power.edx)
}

/// Decide whether the TSC is usable for probe measurements.
///
/// `invariant_tsc`: whether the CPU advertises an invariant TSC.
/// `kernel_clocksource_is_tsc`: on Linux, whether the kernel's current
/// clocksource is the TSC; `None` where there is no kernel choice to
/// consult. The CPU is judged first.
pub fn check(invariant_tsc: bool, kernel_clocksource_is_tsc: Option<bool>) -> (r: Result<
    (),
    &'static str,
>)
    ensures
        !invariant_tsc ==> r == Err::<(), &'static str>(NO_INVARIANT_TSC),
        invariant_tsc && kernel_clocksource_is_tsc == Some(false) ==> r == Err::<
            (),
            &'static str,
        >(KERNEL_REJECTED_TSC),
        r is Ok <==> invariant_tsc && kernel_clocksource_is_tsc != Some(false),
{
    if !invariant_tsc {
        return Err(NO_INVARIANT_TSC);
    }
    if let Some(false) = kernel_clocksource_is_tsc {
        return Err(KERNEL_REJECTED_TSC);
    }
    Ok(())
}

/// Unicode `White_Space`: the characters `char::is_whitespace` accepts.
pub open spec fn is_white_space(c: char) -> bool {
    ||| '\u{9}' <= c <= '\u{d}'
    ||| c == ' '
    ||| c == '\u{85}'
    ||| c == '\u{a0}'
    ||| c == '\u{1680}'
    ||| '\u{2000}' <= c <= '\u{200a}'
    ||| c == '\u{2028}'
    ||| c == '\u{2029}'
    ||| c == '\u{202f}'
    ||| c == '\u{205f}'
    ||| c == '\u{3000}'
}

/// `s` without its leading white space.
pub open spec fn trim_start(s: Seq<char>) -> Seq<char>
    decreases s.len(),
{
    if s.len() > 0 && is_white_space(s[0]) {
        trim_start(s.drop_first())
    } else {
        s
    }
}

/// `s` without its trailing white space.
pub open spec fn trim_end(s: Seq<char>) -> Seq<char>
    decreases s.len(),
{
    if s.len() > 0 && is_white_space(s.last()) {
        trim_end(s.drop_last())
    } else {
        s
    }
}

/// `s` without leading and trailing white space (what `str::trim` gives).
pub open spec fn trim(s: Seq<char>) -> Seq<char> {
    trim_end(trim_start(s))
}

/// The clocksource name of the TSC.
pub open spec fn tsc_name() -> Seq<char> {
    seq!['t', 's', 'c']
}

fn is_white_space_char(c: char) -> (r: bool)
    ensures
        r == is_white_space(c),
{
    ('\u{9}' <= c && c <= '\u{d}') || c == ' ' || c == '\u{85}' || c == '\u{a0}' || c
        == '\u{1680}' || ('\u{2000}' <= c && c <= '\u{200a}') || c == '\u{2028}' || c
        == '\u{2029}' || c == '\u{202f}' || c == '\u{205f}' || c == '\u{3000}'
}

/// Whether the kernel's current clocksource, as read from sysfs, is the
/// TSC. `contents` is the file's text, or `None` when it could not be read
/// (containers, non-standard kernels): that counts as "not tsc", since
/// refusing is the safe default.
pub fn kernel_clocksource_is_tsc(contents: Option<&str>) -> (r: bool)
    ensures
        r == (contents matches Some(s) && trim(s@) == tsc_name()),
{
    let s = match contents {
        Some(s) => s,
        None => return false,
    };
    let mut cs: Vec<char> = Vec::new();
    for c in it: s.chars()
        invariant
            cs@ == it.seq().take(it.index() as int),
    {
        cs.push(c);
    }
    assert(cs@ == s@);
    let n = cs.len();
    let mut i: usize = 0;
    while i < n && is_white_space_char(cs[i])
        invariant
            i <= n,
            n == cs@.len(),
            trim_start(cs@) == trim_start(cs@.subrange(i as int, n as int)),
        decreases n - i,
    {
        assert(cs@.subrange(i as int, n as int).drop_first() =~= cs@.subrange(
            i + 1,
            n as int,
        ));
        i = i + 1;
    }
    let mut j: usize = n;
    while j > i && is_white_space_char(cs[j - 1])
        invariant
            i <= j <= n,
            n == cs@.len(),
            trim_start(cs@) == cs@.subrange(i as int, n as int),
            trim(cs@) == trim_end(cs@.subrange(i as int, j as int)),
        decreases j - i,
    {
        assert(cs@.subrange(i as int, j as int).drop_last() =~= cs@.subrange(
            i as int,
            j - 1,
        ));
        j = j - 1;
    }
    assert(trim(cs@) == cs@.subrange(i as int, j as int));
    let r = j - i == 3 && cs[i] == 't' && cs[i + 1] == 's' && cs[i + 2] == 'c';
    if r {
        assert(cs@.subrange(i as int, j as int) =~= tsc_name());
    } else {
        proof {
            let t = cs@.subrange(i as int, j as int);
            if t == tsc_name() {
                assert(t[0] == 't' && t[1] == 's' && t[2] == 'c');
            }
        }
    }
    r
}

/// The invariant-TSC flag is bit 8 of EDX and nothing else: it is set
/// exactly when `edx & 0x100` is non-zero, so flipping any other bit of EDX
/// never changes it.
pub proof fn lemma_invariant_tsc_bit_is_bit_8(edx: u32)
    ensures
        invariant_tsc_bit(edx) == (edx & 0x100u32 != 0u32),
        forall|other: u32|
            other & 0x100u32 == 0u32 ==> #[trigger] invariant_tsc_bit(edx ^ other)
                == invariant_tsc_bit(edx),
{
    assert(((edx / 256) % 2 == 1) == (edx & 0x100u32 != 0u32)) by (bit_vector);
    assert forall|other: u32| other & 0x100u32 == 0u32 implies #[trigger] invariant_tsc_bit(
        edx ^ other,
    ) == invariant_tsc_bit(edx) by {
        assert(other & 0x100u32 == 0u32 ==> (((edx ^ other) / 256) % 2 == 1) == ((edx / 256) % 2
            == 1)) by (bit_vector);
    }
}

/// `trim_start(s)` drops exactly the leading white space: it is `s` from
/// index `i` on, every character before `i` is white space, and the
/// character at `i` (if any) is not.
proof fn lemma_trim_start_bounds(s: Seq<char>) -> (i: int)
    ensures
        0 <= i <= s.len(),
        trim_start(s) == s.subrange(i, s.len() as int),
        forall|k: int| 0 <= k < i ==> is_white_space(#[trigger] s[k]),
        i < s.len() ==> !is_white_space(s[i]),
    decreases s.len(),
{
    if s.len() > 0 && is_white_space(s[0]) {
        let t = s.drop_first();
        let i1 = lemma_trim_start_bounds(t);
        assert(t.subrange(i1, t.len() as int) =~= s.subrange(i1 + 1, s.len() as int));
        assert forall|k: int| 0 <= k < i1 + 1 implies is_white_space(#[trigger] s[k]) by {
            if k > 0 {
                assert(s[k] == t[k - 1]);
            }
        }
        i1 + 1
    } else {
        assert(s.subrange(0, s.len() as int) =~= s);
        0
    }
}

/// `trim_end(s)` drops exactly the trailing white space: it is `s` up to
/// index `j`, every character from `j` on is white space, and the character
/// just before `j` (if any) is not.
proof fn lemma_trim_end_bounds(s: Seq<char>) -> (j: int)
    ensures
        0 <= j <= s.len(),
        trim_end(s) == s.subrange(0, j),
        forall|k: int| j <= k < s.len() ==> is_white_space(#[trigger] s[k]),
        j > 0 ==> !is_white_space(s[j - 1]),
    decreases s.len(),
{
    if s.len() > 0 && is_white_space(s.last()) {
        let t = s.drop_last();
        let j1 = lemma_trim_end_bounds(t);
        assert(t.subrange(0, j1) =~= s.subrange(0, j1));
        assert forall|k: int| j1 <= k < s.len() implies is_white_space(#[trigger] s[k]) by {
            if k < s.len() - 1 {
                assert(s[k] == t[k]);
            }
        }
        j1
    } else {
        assert(s.subrange(0, s.len() as int) =~= s);
        s.len() as int
    }
}

/// `trim(s)` is what `str::trim` gives: a contiguous piece `s[i..j]` of `s`
/// such that everything before `i` and from `j` on is white space and the
/// piece neither starts nor ends with white space.
pub proof fn lemma_trim_removes_only_outer_white_space(s: Seq<char>) -> (ij: (int, int))
    ensures
        0 <= ij.0 <= ij.1 <= s.len(),
        trim(s) == s.subrange(ij.0, ij.1),
        forall|k: int| 0 <= k < ij.0 ==> is_white_space(#[trigger] s[k]),
        forall|k: int| ij.1 <= k < s.len() ==> is_white_space(#[trigger] s[k]),
        ij.0 < ij.1 ==> !is_white_space(s[ij.0]) && !is_white_space(s[ij.1 - 1]),
{
    let i = lemma_trim_start_bounds(s);
    let t = s.subrange(i, s.len() as int);
    let j1 = lemma_trim_end_bounds(t);
    assert(t.subrange(0, j1) =~= s.subrange(i, i + j1));
    assert forall|k: int| i + j1 <= k < s.len() implies is_white_space(#[trigger] s[k]) by {
        assert(s[k] == t[k - i]);
    }
    if 0 < j1 {
        assert(s[i] == t[0]);
        assert(s[i + j1 - 1] == t[j1 - 1]);
    }
    (i, i + j1)
}

/// The kernel's clocksource is taken for the TSC exactly when the text,
/// without its outer white space, is the three characters `t`, `s`, `c`:
/// other names that merely contain `tsc` are refused.
pub proof fn lemma_clocksource_names_exactly_tsc(s: Seq<char>)
    ensures
        trim(s) == tsc_name() <==> exists|i: int|
            0 <= i && i + 3 <= s.len() && #[trigger] s[i] == 't' && s[i + 1] == 's' && s[i + 2]
                == 'c' && (forall|k: int| 0 <= k < i ==> is_white_space(#[trigger] s[k])) && (
            forall|k: int| i + 3 <= k < s.len() ==> is_white_space(#[trigger] s[k])),
{
    let (i, j) = lemma_trim_removes_only_outer_white_space(s);
    if trim(s) == tsc_name() {
        let t = s.subrange(i, j);
        assert(t.len() == 3);
        assert(j == i + 3);
        assert(t[0] == s[i] && t[1] == s[i + 1] && t[2] == s[i + 2]);
        assert(s[i] == 't' && s[i + 1] == 's' && s[i + 2] == 'c');
        assert(forall|k: int| 0 <= k < i ==> is_white_space(#[trigger] s[k]));
        assert(forall|k: int| i + 3 <= k < s.len() ==> is_white_space(#[trigger] s[k]));
    }
    if exists|i2: int|
        0 <= i2 && i2 + 3 <= s.len() && #[trigger] s[i2] == 't' && s[i2 + 1] == 's' && s[i2 + 2]
            == 'c' && (forall|k: int| 0 <= k < i2 ==> is_white_space(#[trigger] s[k])) && (
        forall|k: int| i2 + 3 <= k < s.len() ==> is_white_space(#[trigger] s[k])) {
        let i2 = choose|i2: int|
            0 <= i2 && i2 + 3 <= s.len() && #[trigger] s[i2] == 't' && s[i2 + 1] == 's' && s[i2
                + 2] == 'c' && (forall|k: int| 0 <= k < i2 ==> is_white_space(#[trigger] s[k]))
                && (forall|k: int| i2 + 3 <= k < s.len() ==> is_white_space(#[trigger] s[k]));
        // the first non-white character is at i2, the last at i2 + 2
        assert(!is_white_space(s[i2]));
        assert(!is_white_space(s[i2 + 2]));
        if i < i2 {
            assert(is_white_space(s[i]));
        }
        if i2 < i {
            assert(is_white_space(s[i2]));
        }
        assert(i == i2);
        if j < i2 + 3 {
            assert(j > i);
            assert(is_white_space(s[j]) || j == i2 + 3);
        }
        if j > i2 + 3 {
            assert(is_white_space(s[j - 1]));
        }
        assert(j == i2 + 3);
        assert(s.subrange(i, j) =~= tsc_name());
    }
}

} // verus!
