use jvm_decompiler::names::{local, stack};

#[test]
fn stack_names_are_decimal() {
    assert_eq!(stack(0), "stack_0");
    assert_eq!(stack(7), "stack_7");
    assert_eq!(stack(10), "stack_10");
    assert_eq!(stack(12345), "stack_12345");
    assert_eq!(stack(1_000_000), "stack_1000000");
}

#[test]
fn negative_stack_names_carry_a_sign() {
    assert_eq!(stack(-1), "stack_-1");
    assert_eq!(stack(-90), "stack_-90");
    assert_eq!(stack(isize::MIN), format!("stack_{}", isize::MIN));
    assert_eq!(stack(isize::MAX), format!("stack_{}", isize::MAX));
}

#[test]
fn local_names_are_decimal() {
    assert_eq!(local(0), "local_0");
    assert_eq!(local(9), "local_9");
    assert_eq!(local(100), "local_100");
    assert_eq!(local(65535), "local_65535");
    assert_eq!(local(usize::MAX), format!("local_{}", usize::MAX));
}

#[test]
fn names_agree_with_the_formatter() {
    for i in 0..300usize {
        assert_eq!(local(i), format!("local_{}", i));
        assert_eq!(stack(i as isize), format!("stack_{}", i));
    }
}
