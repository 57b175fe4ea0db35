use serde::de::{Deserialize, Deserializer};
use serde::ser::{Serialize, SerializeStruct, Serializer};
use thunkpool::threading::thunk as plain;
use thunkpool::transport::thunk::{FnBox, FnBoxGeneric, ReturnableThunk, Thunk};

struct TestStruct {
    id: i8,
    key: i16,
    name: String,
}

impl Serialize for TestStruct {
    fn serialize<S: Serializer>(&self, serializer: S) -> Result<S::Ok, S::Error> {
        let mut st = serializer.serialize_struct("TestStruct", 3)?;
        st.serialize_field("id", &self.id)?;
        st.serialize_field("key", &self.key)?;
        st.serialize_field("name", &self.name)?;
        st.end()
    }
}

impl<'de> Deserialize<'de> for TestStruct {
    fn deserialize<D: Deserializer<'de>>(deserializer: D) -> Result<Self, D::Error> {
        // The binary encoding of a struct is that of the tuple of its fields.
        let (id, key, name) = <(i8, i16, String)>::deserialize(deserializer)?;
        Ok(TestStruct { id, key, name })
    }
}

fn execute(b: bool) {
    assert!(b);
}

#[test]
fn test_returnable_thunk_serde() {
    let t = TestStruct {
        id: 0,
        key: 112,
        name: "TestStruct".to_string(),
    };
    let bytes = bincode::serialize(&t).unwrap();
    let f: ReturnableThunk<Vec<u8>> = Box::new(move || bytes);
    let d = f.call_box();
    assert!(d != None);
    assert!(d.is_some());
    let bcode = d.unwrap();
    let obj: TestStruct = bincode::deserialize(&bcode).unwrap();
    assert!(obj.id == 0);
    assert!(obj.key == 112);
    assert!(obj.name.eq("TestStruct"));
}

#[test]
fn test_returnable_thunk_string() {
    let f: ReturnableThunk<String> = Box::new(|| String::from("Hello"));
    let d = f.call_box();
    assert!(d != None);
    assert!(d.is_some());
    assert!(d.unwrap().eq("Hello"));
}

#[test]
fn test_returnable_thunk_i64() {
    let f: ReturnableThunk<i64> = Box::new(|| 1 + 1);
    let d = f.call_box();
    assert!(d != None);
    assert!(d.is_some());
    assert!(d.unwrap() == 2);
}

#[test]
fn thunk_test_thunk() {
    let f: Thunk = Box::new(|| assert!(true));
    f.call_box();
    let g: plain::Thunk = Box::new(|| assert!(true));
    plain::FnBox::call_box(g);
}

#[test]
fn thunk_test_exec_func_in_thunk() {
    let b: bool = true;
    let f: Thunk = Box::new(move || execute(b));
    f.call_box();
    let g: plain::Thunk = Box::new(|| execute(true));
    plain::FnBox::call_box(g);
}

#[test]
fn thunk_test_exec_func_in_thunk_threads() {
    for _i in 0..10 {
        let f: plain::Thunk = Box::new(|| execute(true));
        plain::FnBox::call_box(f);
    }
}

#[test]
fn returnable_thunk_hands_back_each_kind_of_value() {
    let a: ReturnableThunk<bool> = Box::new(|| 3 > 2);
    assert_eq!(a.call_box(), Some(true));
    let b: ReturnableThunk<char> = Box::new(|| 'x');
    assert_eq!(b.call_box(), Some('x'));
    let c: ReturnableThunk<i32> = Box::new(|| -7i32);
    assert_eq!(c.call_box(), Some(-7));
    let d: ReturnableThunk<i16> = Box::new(|| 300i16);
    assert_eq!(d.call_box(), Some(300));
    let e: ReturnableThunk<isize> = Box::new(|| -1isize);
    assert_eq!(e.call_box(), Some(-1));
    let f: ReturnableThunk<u8> = Box::new(|| 255u8);
    assert_eq!(f.call_box(), Some(255));
    let g: ReturnableThunk<u16> = Box::new(|| 65535u16);
    assert_eq!(g.call_box(), Some(65535));
    let h: ReturnableThunk<u32> = Box::new(|| 40u32 + 2);
    assert_eq!(h.call_box(), Some(42));
    let i: ReturnableThunk<u64> = Box::new(|| u64::MAX);
    assert_eq!(i.call_box(), Some(u64::MAX));
    let j: ReturnableThunk<usize> = Box::new(|| 5usize);
    assert_eq!(j.call_box(), Some(5));
    let k: ReturnableThunk<Vec<u8>> = Box::new(|| vec![1u8, 2, 3]);
    assert_eq!(k.call_box(), Some(vec![1u8, 2, 3]));
}

#[test]
fn thunk_runs_its_routine_once() {
    let (tx, rx) = std::sync::mpsc::channel::<i64>();
    let f: Thunk = Box::new(move || tx.send(41 + 1).unwrap());
    f.call_box();
    assert_eq!(rx.recv().unwrap(), 42);
    assert!(rx.recv().is_err());
}
