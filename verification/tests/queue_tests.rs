use pqbincode::IBincodeSerializable;
use pqbincode::PQBincode;
use pqbincode::Person;
use pqbincode::QueueError;

fn person(name: &str, age: u32) -> Person {
    Person { name: name.to_string(), age }
}

/// A path of its own for each test run, so no test sees another's file.
fn temp_path(name: &str) -> String {
    let nanos = std::time::SystemTime::now()
        .duration_since(std::time::UNIX_EPOCH)
        .unwrap()
        .as_nanos();
    format!("/tmp/pqbincode_{}_{}.qf", name, nanos)
}

#[test]
fn round_trip_person() {
    let p = person("Alice", 30);
    let back = pqbincode::encode_decode_round_trip(&p).unwrap();
    assert_eq!(back, p);
}

#[test]
fn round_trip_via_trait_methods() {
    let p = person("", 0);
    let bytes = p.to_bincode();
    let back = Person::from_bincode(bytes.as_slice()).unwrap();
    assert_eq!(back, p);
}

#[test]
fn decode_of_garbage_fails() {
    assert!(Person::from_bincode(&[255u8; 8]).is_none());
}

#[test]
fn fifo_order() {
    let path = temp_path("fifo");
    let mut q: PQBincode<Person> = PQBincode::new(path.clone()).unwrap();
    q.enqueue(person("a", 1)).unwrap();
    q.enqueue(person("b", 2)).unwrap();
    assert_eq!(q.dequeue().unwrap(), Some(person("a", 1)));
    assert_eq!(q.dequeue().unwrap(), Some(person("b", 2)));
    assert_eq!(q.dequeue().unwrap(), None);
}

#[test]
fn abandon_is_non_destructive() {
    let path = temp_path("abandon");
    let mut q: PQBincode<Person> = PQBincode::new(path.clone()).unwrap();
    let x = person("x", 7);
    q.enqueue(x.clone()).unwrap();
    let dequeued = q.cancellable_dequeue(|_v| false).unwrap();
    assert!(!dequeued);
    assert_eq!(q.count(), 1);
    assert_eq!(q.dequeue().unwrap(), Some(x));
    assert_eq!(q.count(), 0);
}

#[test]
fn commit_removes_exactly_one() {
    let path = temp_path("commit");
    let mut q: PQBincode<Person> = PQBincode::new(path.clone()).unwrap();
    let x = person("x", 1);
    let y = person("y", 2);
    q.enqueue(x.clone()).unwrap();
    q.enqueue(y.clone()).unwrap();
    let dequeued = q.cancellable_dequeue(|v| v == x).unwrap();
    assert!(dequeued);
    assert_eq!(q.count(), 1);
    assert_eq!(q.dequeue().unwrap(), Some(y));
}

#[test]
fn empty_queue_contract() {
    let path = temp_path("empty");
    let mut q: PQBincode<Person> = PQBincode::new(path.clone()).unwrap();
    assert_eq!(q.count(), 0);
    assert_eq!(q.dequeue().unwrap(), None);
    let mut decision_was_invoked = false;
    let dequeued = q
        .cancellable_dequeue(|_v| {
            decision_was_invoked = true;
            true
        })
        .unwrap();
    assert!(!dequeued);
    assert!(!decision_was_invoked);
    assert_eq!(q.count(), 0);
}

#[test]
fn corruption_is_isolated() {
    let path = temp_path("corrupt");
    {
        let mut qf = queue_file::QueueFile::open(&path).unwrap();
        qf.add(&[255u8; 8]).unwrap();
    }
    let mut q: PQBincode<Person> = PQBincode::new(path.clone()).unwrap();
    assert_eq!(q.count(), 1);
    let r = q.dequeue();
    assert!(matches!(r, Err(QueueError::Corrupt)));
    assert_eq!(q.count(), 1);
    let r = q.cancellable_dequeue(|_v| true);
    assert!(matches!(r, Err(QueueError::Corrupt)));
    assert_eq!(q.count(), 1);
}

#[test]
fn interleaved_enqueues_lose_nothing() {
    let path = temp_path("interleave");
    let mut q: PQBincode<Person> = PQBincode::new(path.clone()).unwrap();
    let n = 10u32;
    for i in 0..n {
        q.enqueue(person("first", i)).unwrap();
        q.enqueue(person("second", i)).unwrap();
    }
    assert_eq!(q.count(), 2 * n as usize);
    let all = q.dequeue_all().unwrap();
    assert_eq!(all.len(), 2 * n as usize);
    assert_eq!(q.count(), 0);
    for i in 0..n {
        assert_eq!(all[2 * i as usize], person("first", i));
        assert_eq!(all[2 * i as usize + 1], person("second", i));
    }
}

#[test]
fn values_persist_across_reopen() {
    let path = temp_path("persist");
    let a = person("a", 1);
    let b = person("b", 2);
    {
        let mut q: PQBincode<Person> = PQBincode::new(path.clone()).unwrap();
        q.enqueue_all(vec![a.clone(), b.clone()]).unwrap();
    }
    let mut q: PQBincode<Person> = PQBincode::new(path.clone()).unwrap();
    assert_eq!(q.count(), 2);
    assert_eq!(q.dequeue_all().unwrap(), vec![a, b]);
}

#[test]
fn scenario_two_identical_persons() {
    let path = temp_path("scenario");
    let mut q: PQBincode<Person> = PQBincode::new(path.clone()).unwrap();
    assert_eq!(q.count(), 0);
    let a = person("A", 20);
    q.enqueue(a.clone()).unwrap();
    q.enqueue(a.clone()).unwrap();
    assert_eq!(q.count(), 2);
    assert!(!q.cancellable_dequeue(|_v| false).unwrap());
    assert_eq!(q.count(), 2);
    assert!(q.cancellable_dequeue(|_v| true).unwrap());
    assert_eq!(q.count(), 1);
    assert_eq!(q.dequeue().unwrap(), Some(a));
    assert_eq!(q.count(), 0);
}

#[test]
fn enqueue_all_keeps_order() {
    let path = temp_path("enqueue_all");
    let mut q: PQBincode<Person> = PQBincode::new(path.clone()).unwrap();
    q.enqueue_all(vec![]).unwrap();
    assert_eq!(q.count(), 0);
    let batch = vec![person("a", 1), person("b", 2), person("c", 3)];
    q.enqueue_all(batch.clone()).unwrap();
    assert_eq!(q.count(), 3);
    assert_eq!(q.dequeue_all().unwrap(), batch);
}

#[test]
fn dequeue_all_of_empty_is_empty() {
    let path = temp_path("dequeue_all_empty");
    let mut q: PQBincode<Person> = PQBincode::new(path.clone()).unwrap();
    assert_eq!(q.dequeue_all().unwrap(), vec![]);
}

#[test]
fn path_is_kept() {
    let path = temp_path("path");
    let q: PQBincode<Person> = PQBincode::new(path.clone()).unwrap();
    assert_eq!(q.get_persistent_path(), path);
}

#[test]
fn open_of_unreachable_path_is_io_error() {
    let r = PQBincode::<Person>::new("/tmp/pqbincode_no_such_dir/q.qf".to_string());
    assert!(matches!(r, Err(QueueError::Io(_))));
}

#[test]
fn encoding_layout_is_fixed_width() {
    let p = person("A", 7);
    let bytes = p.to_bincode();
    let expected = vec![1u8, 0, 0, 0, 0, 0, 0, 0, b'A', 7, 0, 0, 0];
    assert_eq!(bytes, expected);
    assert_eq!(Person::from_bincode(&expected), Some(p));
}

#[test]
fn dequeue_all_keeps_corrupt_record_in_place() {
    let path = temp_path("dequeue_all_partial");
    {
        let mut q: PQBincode<Person> = PQBincode::new(path.clone()).unwrap();
        q.enqueue(person("ok", 1)).unwrap();
    }
    {
        let mut qf = queue_file::QueueFile::open(&path).unwrap();
        qf.add(&[255u8; 8]).unwrap();
    }
    let mut q: PQBincode<Person> = PQBincode::new(path.clone()).unwrap();
    assert_eq!(q.count(), 2);
    let r = q.dequeue_all();
    assert!(matches!(r, Err(QueueError::Corrupt)));
    assert_eq!(q.count(), 1);
}
