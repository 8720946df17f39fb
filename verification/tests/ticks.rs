use tprobe::ticks::{
    check, has_invariant_tsc, invariant_tsc_advertised, kernel_clocksource_is_tsc,
    KERNEL_REJECTED_TSC, NO_INVARIANT_TSC,
};

#[test]
fn check_accepts_invariant_tsc_selected_by_kernel() {
    assert_eq!(check(true, Some(true)), Ok(()));
    assert_eq!(check(true, None), Ok(()));
}

#[test]
fn check_refuses_without_invariant_tsc() {
    assert_eq!(check(false, Some(true)), Err(NO_INVARIANT_TSC));
    assert_eq!(check(false, Some(false)), Err(NO_INVARIANT_TSC));
    assert_eq!(check(false, None), Err(NO_INVARIANT_TSC));
}

#[test]
fn check_refuses_tsc_rejected_by_kernel() {
    assert_eq!(check(true, Some(false)), Err(KERNEL_REJECTED_TSC));
}

#[test]
fn refusal_messages_name_the_cause() {
    assert!(NO_INVARIANT_TSC.starts_with("invariant TSC not supported by this CPU"));
    assert!(KERNEL_REJECTED_TSC.starts_with("TSC not selected as the kernel clocksource"));
}

#[test]
fn invariant_tsc_flag_is_edx_bit_8() {
    assert!(invariant_tsc_advertised(0x8000_0007, 0x100));
    assert!(invariant_tsc_advertised(0x8000_0008, 0xffff_ffff));
    assert!(!invariant_tsc_advertised(0x8000_0008, 0x0000_00ff));
    assert!(!invariant_tsc_advertised(0x8000_0008, 0xffff_feff));
}

#[test]
fn invariant_tsc_needs_the_power_leaf() {
    assert!(!invariant_tsc_advertised(0x8000_0006, 0x100));
    assert!(!invariant_tsc_advertised(0, 0xffff_ffff));
}

#[test]
fn cpu_query_answers() {
    let a = has_invariant_tsc();
    let b = has_invariant_tsc();
    assert_eq!(a, b);
}

#[test]
fn clocksource_tsc_with_newline() {
    assert!(kernel_clocksource_is_tsc(Some("tsc\n")));
    assert!(kernel_clocksource_is_tsc(Some("tsc")));
    assert!(kernel_clocksource_is_tsc(Some(" \ttsc \u{3000}\r\n")));
}

#[test]
fn clocksource_other_than_tsc() {
    assert!(!kernel_clocksource_is_tsc(Some("hpet\n")));
    assert!(!kernel_clocksource_is_tsc(Some("TSC\n")));
    assert!(!kernel_clocksource_is_tsc(Some("tsc2\n")));
    assert!(!kernel_clocksource_is_tsc(Some("t sc")));
    assert!(!kernel_clocksource_is_tsc(Some("")));
    assert!(!kernel_clocksource_is_tsc(Some("  \n")));
}

#[test]
fn unreadable_clocksource_is_not_tsc() {
    assert!(!kernel_clocksource_is_tsc(None));
}
