use io_test_utils::partial::{gate_for, step_for, Gate, PartialOp, PartialRead, PartialWrite, Step};
use io_test_utils::MockDuplex;

fn mock_with_reads(bytes: &[u8]) -> MockDuplex {
    let mut m = MockDuplex::new();
    m.add_read_data(bytes);
    m
}

fn queued_writes(m: &MockDuplex) -> Vec<u8> {
    let (_, writes) = m.clone().into_inner();
    writes.into_iter().collect()
}

#[test]
fn limited_then_unlimited_read_scenario() {
    let data: Vec<u8> = (0u8..14).collect();
    let ops = vec![PartialOp::Limited(4), PartialOp::Unlimited];
    let mut r = PartialRead::new(mock_with_reads(&data), ops.into_iter());
    let mut buf = [0u8; 10];
    assert_eq!(r.read(&mut buf), Some(4));
    assert_eq!(&buf[..4], &data[..4]);
    assert_eq!(&buf[4..], &[0u8; 6]);
    let mut buf2 = [0u8; 10];
    assert_eq!(r.read(&mut buf2), Some(10));
    assert_eq!(&buf2[..], &data[4..14]);
}

#[test]
fn pending_then_unlimited_write_scenario() {
    let ops = vec![PartialOp::Pending, PartialOp::Unlimited];
    let mut w = PartialWrite::new(MockDuplex::new(), ops.into_iter());
    assert_eq!(w.write(b"hello"), None);
    assert!(queued_writes(w.get_ref()).is_empty());
    assert_eq!(w.write(b"hello"), Some(5));
    assert_eq!(queued_writes(w.get_ref()), b"hello".to_vec());
}

#[test]
fn unlimited_read_matches_direct_read() {
    let data = [9u8, 8, 7, 6, 5, 4];
    let mut direct = mock_with_reads(&data);
    let mut direct_buf = [0u8; 4];
    let direct_n = direct.read(&mut direct_buf);
    let ops = vec![PartialOp::Unlimited];
    let mut r = PartialRead::new(mock_with_reads(&data), ops.into_iter());
    let mut buf = [0u8; 4];
    assert_eq!(r.read(&mut buf), Some(direct_n));
    assert_eq!(buf, direct_buf);
    let mut buf2 = [0u8; 2];
    assert_eq!(r.read(&mut buf2), Some(2));
    assert_eq!(buf2, [5, 4]);
}

#[test]
fn empty_directives_write_matches_direct_write() {
    let mut direct = MockDuplex::new();
    let n = direct.write(&[1, 2, 3]);
    let mut w = PartialWrite::new(MockDuplex::new(), Vec::<PartialOp>::new().into_iter());
    assert_eq!(w.write(&[1, 2, 3]), Some(n));
    assert_eq!(w.next_flush(), Gate::Proceed);
    assert_eq!(w.next_close(), Gate::Proceed);
    assert_eq!(w.into_inner(), direct);
}

#[test]
fn limited_window_is_min_of_limit_and_length() {
    assert_eq!(step_for(Some(PartialOp::Limited(3)), 10), Step::Window(3));
    assert_eq!(step_for(Some(PartialOp::Limited(20)), 5), Step::Window(5));
    assert_eq!(step_for(Some(PartialOp::Limited(0)), 5), Step::Window(0));
    assert_eq!(step_for(Some(PartialOp::Unlimited), 7), Step::Window(7));
    assert_eq!(step_for(None, 7), Step::Window(7));
    assert_eq!(gate_for(Some(PartialOp::Limited(3))), Gate::Proceed);
    assert_eq!(gate_for(None), Gate::Proceed);
}

#[test]
fn limited_write_offers_only_the_window() {
    let ops = vec![PartialOp::Limited(2)];
    let mut w = PartialWrite::new(MockDuplex::new(), ops.into_iter());
    assert_eq!(w.write(&[1, 2, 3, 4, 5]), Some(2));
    assert_eq!(queued_writes(w.get_ref()), vec![1, 2]);
}

#[test]
fn pending_reschedules_every_operation() {
    assert_eq!(step_for(Some(PartialOp::Pending), 10), Step::Reschedule);
    assert_eq!(gate_for(Some(PartialOp::Pending)), Gate::Reschedule);
    let ops = vec![PartialOp::Pending, PartialOp::Pending, PartialOp::Pending];
    let mut w = PartialWrite::new(MockDuplex::new(), ops.into_iter());
    assert_eq!(w.next_write(4), Step::Reschedule);
    assert_eq!(w.next_flush(), Gate::Reschedule);
    assert_eq!(w.next_close(), Gate::Reschedule);
    let mut r = PartialRead::new(mock_with_reads(&[1, 2]), vec![PartialOp::Pending].into_iter());
    let mut buf = [0u8; 2];
    assert_eq!(r.read(&mut buf), None);
    assert_eq!(buf, [0, 0]);
    assert_eq!(r.into_inner(), mock_with_reads(&[1, 2]));
}

#[test]
fn one_directive_per_operation() {
    let ops = vec![PartialOp::Limited(1), PartialOp::Pending, PartialOp::Limited(2)];
    let mut w = PartialWrite::new(MockDuplex::new(), ops.into_iter());
    assert_eq!(w.next_flush(), Gate::Proceed);
    assert_eq!(w.next_close(), Gate::Reschedule);
    assert_eq!(w.next_write(9), Step::Window(2));
    assert_eq!(w.next_write(9), Step::Window(9));
    assert_eq!(w.next_flush(), Gate::Proceed);
    assert_eq!(w.next_write(3), Step::Window(3));

    let ops = vec![PartialOp::Pending, PartialOp::Limited(1)];
    let mut r = PartialRead::new(0u8, ops.into_iter());
    assert_eq!(r.next_read(5), Step::Reschedule);
    assert_eq!(r.next_read(5), Step::Window(1));
    assert_eq!(r.next_read(5), Step::Window(5));
    assert_eq!(r.next_read(5), Step::Window(5));
}

#[test]
fn loop_back_round_trip() {
    let data = b"round trip bytes".to_vec();
    let n = data.len();
    let mut w = PartialWrite::new(MockDuplex::new(), vec![PartialOp::Unlimited; 3].into_iter());
    assert_eq!(w.write(&data), Some(n));
    let mut moved = vec![0u8; n];
    assert_eq!(w.get_mut().drain_write_data(&mut moved), n);
    let mut r = PartialRead::new(mock_with_reads(&moved), vec![PartialOp::Unlimited; 3].into_iter());
    let mut back = vec![0u8; n];
    assert_eq!(r.read(&mut back), Some(n));
    assert_eq!(back, data);
}

#[test]
fn decorator_accessors() {
    let mut r = PartialRead::new(5u32, Vec::<PartialOp>::new().into_iter());
    assert_eq!(*r.get_ref(), 5);
    *r.get_mut() = 6;
    assert_eq!(r.into_inner(), 6);
    let mut w = PartialWrite::new(String::from("a"), Vec::<PartialOp>::new().into_iter());
    w.get_mut().push('b');
    assert_eq!(w.get_ref(), "ab");
    assert_eq!(w.into_inner(), "ab");
}

#[test]
fn read_takes_what_the_queue_holds_within_the_window() {
    let ops = vec![PartialOp::Limited(3), PartialOp::Unlimited, PartialOp::Unlimited];
    let mut r = PartialRead::new(mock_with_reads(&[1, 2, 3, 4, 5]), ops.into_iter());
    let mut buf = [0u8; 8];
    assert_eq!(r.read(&mut buf), Some(3));
    assert_eq!(buf, [1, 2, 3, 0, 0, 0, 0, 0]);
    let mut buf = [0u8; 8];
    assert_eq!(r.read(&mut buf), Some(2));
    assert_eq!(buf, [4, 5, 0, 0, 0, 0, 0, 0]);
    assert_eq!(r.read(&mut buf), Some(0));
}

#[test]
fn loop_back_round_trip_over_several_calls() {
    let chunks: Vec<Vec<u8>> = vec![b"abc".to_vec(), Vec::new(), b"defgh".to_vec()];
    let mut w = PartialWrite::new(MockDuplex::new(), Vec::<PartialOp>::new().into_iter());
    let mut written = Vec::new();
    for c in &chunks {
        assert_eq!(w.write(c), Some(c.len()));
        written.extend_from_slice(c);
    }
    let mut moved = [0u8; 16];
    let n = w.get_mut().drain_write_data(&mut moved);
    assert_eq!(n, 8);
    let mut r = PartialRead::new(mock_with_reads(&moved[..n]), vec![PartialOp::Unlimited; 2].into_iter());
    let mut back = Vec::new();
    loop {
        let mut buf = [0u8; 3];
        let got = r.read(&mut buf).unwrap();
        if got == 0 {
            break;
        }
        back.extend_from_slice(&buf[..got]);
    }
    assert_eq!(back, written);
}
