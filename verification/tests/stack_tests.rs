use r8::EmulatorError;
use r8::Stack;
use r8::STACK_SIZE;

#[test]
fn test_new() {
    let stack: Stack<u8> = Stack::new();
    assert!(stack.len() == 0);
}

#[test]
fn test_push() {
    let mut stack = Stack::new();
    assert!(matches!(stack.push(1), Ok(())));
    assert!(stack.len() == 1);
    let mut probe = stack;
    assert!(matches!(probe.pop(), Ok(1)));
}

#[test]
fn test_push_overflow() {
    let mut stack = Stack::new();
    for i in 0..STACK_SIZE {
        assert!(matches!(stack.push(i), Ok(())));
    }
    assert!(matches!(stack.push(100), Err(EmulatorError::StackOverFlow)));
}

#[test]
fn test_pop() {
    let mut stack = Stack::new();
    stack.push(1).unwrap();
    assert!(matches!(stack.pop(), Ok(1)));
    assert!(stack.len() == 0);
}

#[test]
fn test_pop_underflow() {
    let mut stack: Stack<()> = Stack::new();
    assert!(matches!(stack.pop(), Err(EmulatorError::StackUnderFlow)));
}

#[test]
fn test_clear() {
    let mut stack = Stack::new();
    for i in 0..5 {
        stack.push(i).unwrap();
    }
    stack.clear();
    assert!(stack.len() == 0);
}
