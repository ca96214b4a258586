use machammer::address::HardwareAddress;
use machammer::dhcp_forge::build_discover_frame;
use machammer::worker::{
    retry_deadline, retry_secs, step, Action, Outcome, Worker, WorkerState,
};

fn offer_frame(mac: [u8; 6]) -> Vec<u8> {
    let options = [53u8, 1, 2, 255];
    let total = 20 + 8 + 236 + 4 + options.len();
    let mut f = mac.to_vec();
    f.extend_from_slice(&[1, 2, 3, 4, 5, 6, 0x08, 0x00]);
    let mut ip = vec![0u8; 20];
    ip[0] = 0x45;
    ip[2] = (total >> 8) as u8;
    ip[3] = (total & 0xff) as u8;
    ip[9] = 17;
    f.extend_from_slice(&ip);
    f.extend_from_slice(&[0, 67, 0, 68, 0, 0, 0, 0]);
    f.extend_from_slice(&[0u8; 236]);
    f.extend_from_slice(&[0x63, 0x82, 0x53, 0x63]);
    f.extend_from_slice(&options);
    f
}

#[test]
fn retry_timing_without_offer() {
    let mac = HardwareAddress::new(0xaa, 0xbb, 0xcc, 0xdd, 0xee, 0xff);
    let (mut worker, first) = Worker::start_with(mac, 0xcafe);
    let mut sent: Vec<Vec<u8>> = vec![first];
    let mut secs: Vec<u16> = vec![0];
    let mut sent_at: Vec<u64> = vec![0];
    let noise = vec![0u8; 60];
    let mut ended_at = None;
    for t in 0..40u64 {
        match worker.on_frame(&noise, t) {
            Action::Poll => {}
            Action::Transmit(s) => {
                secs.push(s);
                sent_at.push(t);
                sent.push(worker.frame(s));
            }
            Action::Report(outcome) => {
                assert_eq!(outcome, Outcome::Failure);
                ended_at = Some(t);
                break;
            }
            Action::Halt => panic!("worker halted before it reported"),
        }
    }
    assert_eq!(secs, vec![0, 3, 6, 12]);
    assert_eq!(sent_at, vec![0, 3, 9, 15]);
    assert_eq!(sent.len(), 4);
    assert_eq!(ended_at, Some(21));
    assert_eq!(worker.state, WorkerState::Failure);
    assert!(worker.is_finished());
    for (frame, s) in sent.iter().zip(secs.iter()) {
        assert_eq!(frame, &build_discover_frame(mac, 0xcafe, *s));
    }
    assert_eq!(worker.on_frame(&noise, 50), Action::Halt);
    assert_eq!(worker.state, WorkerState::Failure);
}

#[test]
fn late_polls_do_one_thing_each() {
    let mac = HardwareAddress::new(1, 2, 3, 4, 5, 6);
    let (mut worker, _) = Worker::start_with(mac, 1);
    let noise = [0u8; 10];
    assert_eq!(worker.on_frame(&noise, 100), Action::Transmit(3));
    assert_eq!(worker.on_frame(&noise, 100), Action::Transmit(6));
    assert_eq!(worker.on_frame(&noise, 100), Action::Transmit(12));
    assert_eq!(worker.on_frame(&noise, 100), Action::Report(Outcome::Failure));
}

#[test]
fn offer_ends_the_worker_at_any_retry() {
    let octets = [0xaa, 0xbb, 0xcc, 0xdd, 0xee, 0xff];
    let mac = HardwareAddress::new(0xaa, 0xbb, 0xcc, 0xdd, 0xee, 0xff);
    let offer = offer_frame(octets);
    let noise = [0u8; 10];
    for retries in 0..4usize {
        let (mut worker, _) = Worker::start_with(mac, 5);
        let times = [3u64, 9, 15];
        for t in times.iter().take(retries) {
            assert!(matches!(worker.on_frame(&noise, *t), Action::Transmit(_)));
        }
        assert_eq!(worker.state, WorkerState::Sent(retries as u8));
        assert_eq!(worker.on_frame(&offer, 30), Action::Report(Outcome::Success));
        assert_eq!(worker.state, WorkerState::Success);
        assert_eq!(worker.xid, 5);
        assert_eq!(worker.on_frame(&offer, 31), Action::Halt);
    }
}

#[test]
fn offer_for_another_target_is_ignored() {
    let mac = HardwareAddress::new(0xaa, 0xbb, 0xcc, 0xdd, 0xee, 0xff);
    let (mut worker, _) = Worker::start_with(mac, 5);
    let offer = offer_frame([0xaa, 0xbb, 0xcc, 0xdd, 0xee, 0x00]);
    assert_eq!(worker.on_frame(&offer, 1), Action::Poll);
    assert_eq!(worker.state, WorkerState::Sent(0));
}

#[test]
fn fault_is_reported_apart() {
    let mac = HardwareAddress::new(1, 2, 3, 4, 5, 6);
    let (mut worker, _) = Worker::start_with(mac, 5);
    assert_eq!(worker.on_fault(), Action::Report(Outcome::Fault));
    assert_eq!(worker.state, WorkerState::Fault);
    assert_eq!(worker.on_fault(), Action::Halt);
    assert_eq!(worker.on_frame(&[0u8; 4], 30), Action::Halt);
    assert_eq!(worker.state, WorkerState::Fault);
}

#[test]
fn step_table() {
    assert_eq!(step(WorkerState::Sent(0), false, 2), (WorkerState::Sent(0), Action::Poll));
    assert_eq!(step(WorkerState::Sent(0), false, 3), (WorkerState::Sent(1), Action::Transmit(3)));
    assert_eq!(step(WorkerState::Sent(1), false, 8), (WorkerState::Sent(1), Action::Poll));
    assert_eq!(step(WorkerState::Sent(1), false, 9), (WorkerState::Sent(2), Action::Transmit(6)));
    assert_eq!(step(WorkerState::Sent(2), false, 14), (WorkerState::Sent(2), Action::Poll));
    assert_eq!(step(WorkerState::Sent(2), false, 15), (WorkerState::Sent(3), Action::Transmit(12)));
    assert_eq!(step(WorkerState::Sent(3), false, 20), (WorkerState::Sent(3), Action::Poll));
    assert_eq!(
        step(WorkerState::Sent(3), false, 21),
        (WorkerState::Failure, Action::Report(Outcome::Failure))
    );
    assert_eq!(
        step(WorkerState::Sent(2), true, 0),
        (WorkerState::Success, Action::Report(Outcome::Success))
    );
    assert_eq!(step(WorkerState::Success, true, 0), (WorkerState::Success, Action::Halt));
    assert_eq!(retry_secs(0), 0);
    assert_eq!(retry_secs(1), 3);
    assert_eq!(retry_secs(2), 6);
    assert_eq!(retry_secs(3), 12);
    assert_eq!(retry_deadline(0), 3);
    assert_eq!(retry_deadline(1), 9);
    assert_eq!(retry_deadline(2), 15);
    assert_eq!(retry_deadline(3), 21);
}

#[test]
fn started_worker_sends_its_own_transaction_id() {
    let mac = HardwareAddress::new(0xaa, 0xbb, 0xcc, 0xdd, 0xee, 0xff);
    let (worker, frame) = Worker::start(mac);
    assert_eq!(worker.mac, mac);
    assert_eq!(worker.state, WorkerState::Sent(0));
    assert_eq!(frame, build_discover_frame(mac, worker.xid, 0));
    assert_eq!(&frame[46..50], &worker.xid.to_be_bytes());
    assert_eq!(worker.frame(12), build_discover_frame(mac, worker.xid, 12));
}

#[test]
fn transaction_ids_vary() {
    let mac = HardwareAddress::new(0xaa, 0xbb, 0xcc, 0xdd, 0xee, 0xff);
    let first = Worker::start(mac).0.xid;
    let mut differs = false;
    for _ in 0..64 {
        if Worker::start(mac).0.xid != first {
            differs = true;
        }
    }
    assert!(differs);
}
