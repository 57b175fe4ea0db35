use thunkpool::transport::return_value::{ReturnMessage, ReturnValue};

struct TestVal {
    success: bool,
    msg: String,
}

#[test]
fn test_return_value_should_create() {
    let r = TestVal {
        success: true,
        msg: String::from("ended"),
    };
    let _b: ReturnValue = Box::new(r);
}

#[test]
fn test_return_value_should_carry_a_message() {
    let r = TestVal {
        success: true,
        msg: String::from("ended"),
    };
    let b: ReturnValue = Box::new(r);
    let f: Box<TestVal> = b.downcast().unwrap();
    assert!(f.success);
    assert_eq!(f.msg, "ended");
}

#[test]
fn completed_message_is_successful_and_carries_the_value() {
    let m = ReturnMessage::completed(2i64);
    assert!(m.success);
    assert_eq!(m.message, 2);
    let b: ReturnValue = Box::new(m);
    let back: Box<ReturnMessage<i64>> = b.downcast().unwrap();
    assert_eq!(back.message, 2);
}
