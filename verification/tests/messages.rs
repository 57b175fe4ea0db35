use std::any::Any;
use thunkpool::transport::messages::{Message, Signal, Steal, Terminate, Terminated, TypeInfo};
use thunkpool::transport::return_value;

#[test]
fn test_should_deconstruct_message_to_testable_type() {
    let steal = Steal { thread_id: 1 };
    let rval: return_value::ReturnValue = Box::new(steal);
    let sv: Box<Steal> = rval.downcast().unwrap();
    assert!(sv.thread_id == 1);
}

#[test]
fn test_should_be_able_to_check_message_type() {
    let steal = Steal { thread_id: 1 };
    let rval: return_value::ReturnValue = Box::new(steal);
    let rva: &dyn Any = (rval.as_ref()) as &dyn Any;
    if let Some(_rval) = rva.downcast_ref::<Steal>() {
        assert!(true);
    } else {
        assert!(false);
    }
}

#[test]
fn messages_name_their_type() {
    let m = Message { thread_id: 3, msg: String::from("ended") };
    assert_eq!(m.type_of(), "Message");
    assert_eq!(Steal { thread_id: 0 }.type_of(), "stealer");
    assert_eq!(Terminated { thread_id: 2 }.type_of(), "terminated");
}

#[test]
fn signal_constructors_carry_the_thread_id() {
    assert_eq!(Signal::terminate(), Signal::Terminate(Terminate {}));
    assert_eq!(Signal::steal(4), Signal::Steal(Steal { thread_id: 4 }));
    assert_eq!(Signal::terminated(9), Signal::Terminated(Terminated { thread_id: 9 }));
    assert_ne!(Signal::steal(4), Signal::terminated(4));
}
