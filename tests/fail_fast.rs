use uc3m_timetable::util::process;

#[derive(Debug, Eq, PartialEq, Copy, Clone)]
struct DummyError {}

#[test]
fn all_ok() {
    let vec: Vec<Result<u8, DummyError>> = vec![Ok(1), Ok(2), Ok(3)];
    let mut iter = process(vec);
    assert_eq!(iter.next(), Some(1));
    assert_eq!(iter.next(), Some(2));
    assert_eq!(iter.next(), Some(3));
    assert_eq!(iter.next(), None);
    assert_eq!(*iter.result(), Ok(()));
}

#[test]
fn one_err() {
    let mut iter = process(vec![Ok(true), Err(DummyError {}), Ok(false)]);
    assert_eq!(iter.next(), Some(true));
    assert_eq!(iter.next(), None);
    assert_eq!(iter.next(), None);
    assert_eq!(*iter.result(), Err(DummyError {}));
}

#[test]
fn chaining() {
    let mut iter = process(vec![Ok(10), Ok(20), Err(DummyError {})]);
    assert_eq!(iter.next().map(|x| x + 1), Some(11));
    assert_eq!(iter.next().map(|x| x + 1), Some(21));
    assert_eq!(iter.next().map(|x| x + 1), None);
    assert_eq!(iter.next().map(|x| x + 1), None);
    assert_eq!(*iter.result(), Err(DummyError {}));
}

#[test]
fn drain_keeps_values_before_the_first_error() {
    let mut iter = process(vec![Ok(1), Err(7u8), Ok(2)]);
    let mut out: Vec<i32> = vec![0];
    iter.drain_into(&mut out);
    assert_eq!(out, vec![0, 1]);
    assert_eq!(*iter.result(), Err(7));
    assert_eq!(iter.next(), None);
}

#[test]
fn drain_of_all_ok_source_yields_everything() {
    let mut iter: uc3m_timetable::util::Process<i32, u8> = process(vec![Ok(4), Ok(5), Ok(6)]);
    let mut out: Vec<i32> = Vec::new();
    iter.drain_into(&mut out);
    assert_eq!(out, vec![4, 5, 6]);
    assert_eq!(*iter.result(), Ok(()));
}

#[test]
fn empty_source_yields_nothing() {
    let mut iter: uc3m_timetable::util::Process<i32, u8> = process(Vec::new());
    assert_eq!(iter.next(), None);
    assert_eq!(*iter.result(), Ok(()));
}
