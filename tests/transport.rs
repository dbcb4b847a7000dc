use std::collections::VecDeque;

use bagua_net::{
    advance_transfer, bucket_size, decode_header, encode_header, plan_buckets, BaguaNet,
    BaguaNetError, Bucket, ControlWorker, IoOutcome, NCCLSocketDev, Progress, RequestState,
    SocketAddress, SocketHandle, DEFAULT_SOCKET_MAX_COMMS, NCCL_PTR_HOST,
};

/// Bytes in flight: the control connection and one queue per data stream.
struct Wire {
    control: VecDeque<u8>,
    streams: Vec<VecDeque<u8>>,
    /// Bytes each data stream has carried.
    carried: Vec<usize>,
}

impl Wire {
    fn new(nstreams: usize) -> Wire {
        Wire {
            control: VecDeque::new(),
            streams: (0..nstreams).map(|_| VecDeque::new()).collect(),
            carried: vec![0; nstreams],
        }
    }
}

/// Sends one message the way a send communicator does; returns its buckets.
fn send(sender: &mut ControlWorker, wire: &mut Wire, payload: &[u8]) -> Vec<Bucket> {
    let msg = sender.send_message(payload.len());
    wire.control.extend(msg.header.iter());
    for b in &msg.buckets {
        let part = &payload[b.offset..b.offset + b.len];
        wire.streams[b.stream].extend(part.iter());
        wire.carried[b.stream] += b.len;
    }
    msg.buckets
}

/// Receives one message into a buffer of `capacity` bytes the way a receive
/// communicator does; returns the bytes received.
fn recv(receiver: &mut ControlWorker, wire: &mut Wire, capacity: usize) -> Vec<u8> {
    let mut header = [0u8; 8];
    for h in header.iter_mut() {
        *h = wire.control.pop_front().unwrap();
    }
    let buckets = receiver.receive_header(&header, capacity).unwrap();
    let len = decode_header(&header) as usize;
    let mut buf = vec![0u8; capacity];
    for b in &buckets {
        for i in 0..b.len {
            buf[b.offset + i] = wire.streams[b.stream].pop_front().unwrap();
        }
    }
    buf.truncate(len);
    buf
}

fn pattern(len: usize) -> Vec<u8> {
    (0..len).map(|i| (i % 256) as u8).collect()
}

/// Drives one request through the engine's accounting as the workers report it.
fn complete(net: &mut BaguaNet, id: usize, buckets: &[Bucket]) {
    assert!(net.record(Progress::ControlDone { request: id, nbuckets: buckets.len() }));
    for b in buckets {
        assert_eq!(net.test(id).unwrap().0, false);
        assert!(net.record(Progress::BucketDone { request: id, nbytes: b.len }));
    }
}

fn loopback_dev() -> NCCLSocketDev {
    NCCLSocketDev {
        interface_name: "lo".to_string(),
        pci_path: "/sys/devices/virtual/net/lo".to_string(),
        addr: SocketAddress::V4 { ip: [127, 0, 0, 1], port: 0 },
        speed: 10000,
    }
}

#[test]
fn it_works() {
    let bagua_net = BaguaNet::new(Vec::new(), -1, 2, 1048576).unwrap();
    println!("bagua_net.socket_devs={:?}", bagua_net.socket_devs);

    assert_eq!(2 + 2, 4);
}

#[test]
fn test_socket_handle() {
    let socket_handle = SocketHandle {
        addr: SocketAddress::V4 { ip: [127, 0, 0, 1], port: 8123 },
    };
    println!("socket_handle={:?}", socket_handle.addr);
    assert_eq!(socket_handle.addr, SocketAddress::V4 { ip: [127, 0, 0, 1], port: 8123 });
}

#[test]
fn header_is_big_endian() {
    assert_eq!(encode_header(1048575), [0, 0, 0, 0, 0, 0x0F, 0xFF, 0xFF]);
    assert_eq!(encode_header(0x0102030405060708), [1, 2, 3, 4, 5, 6, 7, 8]);
    assert_eq!(decode_header(&[0, 0, 0, 0, 0, 0x20, 0, 0]), 2097152);
    assert_eq!(decode_header(&encode_header(u64::MAX)), u64::MAX);
}

#[test]
fn bucket_size_formula() {
    assert_eq!(bucket_size(5_000_000, 4, 1_048_576), 1_250_000);
    assert_eq!(bucket_size(2_097_153, 2, 1_048_576), 1_048_577);
    assert_eq!(bucket_size(1_048_575, 2, 1_048_576), 1_048_575);
    assert_eq!(bucket_size(3, 4, 0), 3);
    assert_eq!(bucket_size(5, 2, 0), 3);
    assert_eq!(bucket_size(0, 2, 0), 0);
}

#[test]
fn round_trip_fidelity() {
    let sizes = [0usize, 1, 1024, 65535, 1_048_575, 1_048_576, 16_777_216, 67_108_864];
    for &n in &[1usize, 2, 4, 8] {
        let mut sender = ControlWorker::new(n, 1_048_576);
        let mut receiver = ControlWorker::new(n, 1_048_576);
        let mut wire = Wire::new(n);
        for &s in &sizes {
            let payload = pattern(s);
            send(&mut sender, &mut wire, &payload);
            let got = recv(&mut receiver, &mut wire, s);
            assert!(got == payload, "n={} s={}", n, s);
        }
        assert_eq!(sender.downstream_id, receiver.downstream_id);
    }
}

#[test]
fn length_accounting() {
    let mut net = BaguaNet::new(Vec::new(), 0, 4, 1_048_576).unwrap();
    let mut control = ControlWorker::new(4, 1_048_576);
    for &s in &[0usize, 7, 1_048_576, 5_000_000] {
        let id = net.isend(0).unwrap();
        let buckets = control.plan_message(s);
        complete(&mut net, id, &buckets);
        assert_eq!(net.test(id).unwrap(), (true, s));
    }
}

#[test]
fn fifo_per_direction() {
    let mut sender = ControlWorker::new(3, 16);
    let mut receiver = ControlWorker::new(3, 16);
    let mut wire = Wire::new(3);
    let payloads: Vec<Vec<u8>> = (0..10).map(|k| vec![k as u8; 5 + 7 * k]).collect();
    for p in &payloads {
        send(&mut sender, &mut wire, p);
    }
    for p in &payloads {
        assert_eq!(&recv(&mut receiver, &mut wire, p.len()), p);
    }
}

#[test]
fn bucket_conservation() {
    for &n in &[1usize, 2, 3, 4, 8] {
        for &len in &[0usize, 1, 9, 100, 1000, 1001] {
            let plan = plan_buckets(len, n, 10, 0);
            assert_eq!(plan.iter().map(|b| b.len).sum::<usize>(), len);
            let bs = bucket_size(len, n, 10);
            let expected = if len == 0 { 0 } else { n.min((len + bs - 1) / bs) };
            assert_eq!(plan.len(), expected);
            if len > 0 && len < 10 {
                assert_eq!(plan.len(), 1);
            }
        }
    }
}

#[test]
fn zero_length_transfer() {
    let mut sender = ControlWorker::new(2, 1_048_576);
    let mut wire = Wire::new(2);
    let buckets = send(&mut sender, &mut wire, &[]);
    assert!(buckets.is_empty());
    assert_eq!(wire.control.len(), 8);
    assert_eq!(wire.carried, vec![0, 0]);

    let mut net = BaguaNet::new(Vec::new(), 0, 2, 1_048_576).unwrap();
    let id = net.isend(0).unwrap();
    assert!(net.record(Progress::ControlDone { request: id, nbuckets: 0 }));
    assert_eq!(net.test(id).unwrap(), (true, 0));
}

#[test]
fn no_strip_regime() {
    let mut sender = ControlWorker::new(4, 1_048_576);
    let mut wire = Wire::new(4);
    send(&mut sender, &mut wire, &pattern(1_048_575));
    assert_eq!(wire.carried, vec![1_048_575, 0, 0, 0]);
}

#[test]
fn id_monotonicity() {
    let mut net = BaguaNet::new(vec![loopback_dev()], 0, 2, 1_048_576).unwrap();
    let mut last_listen = None;
    let mut last_send = None;
    let mut last_recv = None;
    let mut last_req = None;
    for _ in 0..5 {
        let (_, l) = net.listen(0).unwrap();
        let (s, _) = net.connect().unwrap();
        let (r, _) = net.accept().unwrap();
        let a = net.isend(s).unwrap();
        let b = net.irecv(r).unwrap();
        assert!(last_listen.map_or(true, |x| x < l));
        assert!(last_send.map_or(true, |x| x < s));
        assert!(last_recv.map_or(true, |x| x < r));
        assert!(last_req.map_or(true, |x| x < a));
        assert!(a < b);
        last_listen = Some(l);
        last_send = Some(s);
        last_recv = Some(r);
        last_req = Some(b);
    }
}

#[test]
fn registry_cleanup() {
    let mut net = BaguaNet::new(Vec::new(), 0, 2, 1_048_576).unwrap();
    let id = net.irecv(0).unwrap();
    assert_eq!(net.test(id).unwrap(), (false, 0));
    assert!(net.record(Progress::ControlDone { request: id, nbuckets: 1 }));
    assert!(net.record(Progress::BucketDone { request: id, nbytes: 16 }));
    assert_eq!(net.test(id).unwrap(), (true, 16));
    assert!(matches!(net.test(id), Err(BaguaNetError::InnerError(_))));
    assert!(!net.record(Progress::BucketDone { request: id, nbytes: 1 }));
    assert!(net.isend(0).unwrap() > id);
}

#[test]
fn s1_one_under_threshold() {
    let mut sender = ControlWorker::new(2, 1_048_576);
    let mut receiver = ControlWorker::new(2, 1_048_576);
    let mut wire = Wire::new(2);
    let payload = vec![0x41u8; 1_048_575];
    let buckets = send(&mut sender, &mut wire, &payload);
    assert_eq!(
        wire.control.iter().copied().collect::<Vec<u8>>(),
        vec![0, 0, 0, 0, 0, 0x0F, 0xFF, 0xFF]
    );
    assert_eq!(buckets, vec![Bucket { stream: 0, offset: 0, len: 1_048_575 }]);
    assert_eq!(recv(&mut receiver, &mut wire, payload.len()), payload);
}

#[test]
fn s2_two_streams_striped() {
    let mut sender = ControlWorker::new(2, 1_048_576);
    let mut receiver = ControlWorker::new(2, 1_048_576);
    let mut wire = Wire::new(2);
    let payload = pattern(2_097_152);
    let buckets = send(&mut sender, &mut wire, &payload);
    assert_eq!(
        wire.control.iter().copied().collect::<Vec<u8>>(),
        vec![0, 0, 0, 0, 0, 0x20, 0, 0]
    );
    assert_eq!(
        buckets,
        vec![
            Bucket { stream: 0, offset: 0, len: 1_048_576 },
            Bucket { stream: 1, offset: 1_048_576, len: 1_048_576 },
        ]
    );
    assert_eq!(recv(&mut receiver, &mut wire, payload.len()), payload);
}

#[test]
fn s3_four_streams() {
    let mut sender = ControlWorker::new(4, 1_048_576);
    let mut wire = Wire::new(4);
    let buckets = send(&mut sender, &mut wire, &pattern(5_000_000));
    assert_eq!(buckets.len(), 4);
    for (k, b) in buckets.iter().enumerate() {
        assert_eq!(*b, Bucket { stream: k, offset: k * 1_250_000, len: 1_250_000 });
    }
    assert_eq!(wire.carried, vec![1_250_000; 4]);
}

#[test]
fn s4_single_stream() {
    let mut sender = ControlWorker::new(1, 1_048_576);
    let mut receiver = ControlWorker::new(1, 1_048_576);
    let mut wire = Wire::new(1);
    for &s in &[0usize, 3, 1_048_576, 3_000_001] {
        let payload = pattern(s);
        let buckets = send(&mut sender, &mut wire, &payload);
        assert!(buckets.iter().all(|b| b.stream == 0));
        assert_eq!(recv(&mut receiver, &mut wire, s), payload);
    }
}

#[test]
fn s5_hundred_small_messages() {
    let mut net = BaguaNet::new(Vec::new(), 0, 2, 1_048_576).unwrap();
    let mut sender = ControlWorker::new(2, 1_048_576);
    let mut receiver = ControlWorker::new(2, 1_048_576);
    let mut wire = Wire::new(2);
    let payloads: Vec<Vec<u8>> = (0..100).map(|k| vec![k as u8; 1024]).collect();
    let mut ids = Vec::new();
    for p in &payloads {
        let id = net.isend(0).unwrap();
        let buckets = send(&mut sender, &mut wire, p);
        complete(&mut net, id, &buckets);
        ids.push(id);
    }
    for id in ids {
        assert_eq!(net.test(id).unwrap(), (true, 1024));
    }
    for p in &payloads {
        assert_eq!(&recv(&mut receiver, &mut wire, 1024), p);
    }
}

#[test]
fn s6_empty_then_sixteen() {
    let mut net = BaguaNet::new(Vec::new(), 0, 2, 1_048_576).unwrap();
    let mut sender = ControlWorker::new(2, 1_048_576);
    let mut wire = Wire::new(2);
    let a = net.isend(0).unwrap();
    let b = net.isend(0).unwrap();
    let ba = send(&mut sender, &mut wire, &[]);
    let bb = send(&mut sender, &mut wire, &[7u8; 16]);
    complete(&mut net, a, &ba);
    complete(&mut net, b, &bb);
    assert_eq!(net.test(a).unwrap(), (true, 0));
    assert_eq!(net.test(b).unwrap(), (true, 16));
}

#[test]
fn cursor_carries_across_messages() {
    let mut control = ControlWorker::new(3, 100);
    assert_eq!(control.plan_message(10)[0].stream, 0);
    assert_eq!(control.plan_message(10)[0].stream, 1);
    let striped = control.plan_message(300);
    assert_eq!(striped.iter().map(|b| b.stream).collect::<Vec<_>>(), vec![2, 0, 1]);
    assert_eq!(control.downstream_id, 2);
    assert!(control.plan_message(0).is_empty());
    assert_eq!(control.downstream_id, 2);
}

#[test]
fn receive_refuses_oversized_length() {
    let mut control = ControlWorker::new(2, 100);
    let r = control.receive_header(&encode_header(17), 16);
    assert!(matches!(r, Err(BaguaNetError::InnerError(_))));
    assert_eq!(control.downstream_id, 0);
    assert_eq!(control.receive_header(&encode_header(16), 16).unwrap().len(), 1);
    assert_eq!(control.downstream_id, 1);
}

#[test]
fn request_state_counters() {
    let mut s = RequestState::new();
    assert_eq!(s, RequestState { nsubtasks: 1, completed_subtasks: 0, nbytes_transferred: 0 });
    assert!(!s.is_complete());
    s.finish_control(2);
    assert_eq!(s, RequestState { nsubtasks: 3, completed_subtasks: 1, nbytes_transferred: 0 });
    s.finish_bucket(5);
    assert!(!s.is_complete());
    s.finish_bucket(4);
    assert!(s.is_complete());
    assert_eq!(s.nbytes_transferred, 9);
}

#[test]
fn record_refuses_unknown_or_excess() {
    let mut net = BaguaNet::new(Vec::new(), 0, 2, 1_048_576).unwrap();
    assert!(!net.record(Progress::ControlDone { request: 3, nbuckets: 1 }));
    let id = net.isend(0).unwrap();
    assert!(net.record(Progress::ControlDone { request: id, nbuckets: 0 }));
    assert!(!net.record(Progress::ControlDone { request: id, nbuckets: 0 }));
    assert!(!net.record(Progress::BucketDone { request: id, nbytes: 1 }));
    assert_eq!(net.test(id).unwrap(), (true, 0));
}

#[test]
fn engine_setup_errors() {
    assert!(matches!(BaguaNet::new(Vec::new(), 0, 0, 1), Err(BaguaNetError::InnerError(_))));
    let other = NCCLSocketDev { addr: SocketAddress::Unsupported, ..loopback_dev() };
    let mut net = BaguaNet::new(vec![loopback_dev(), other], 3, 2, 1_048_576).unwrap();
    assert_eq!(net.devices().unwrap(), 2);
    assert!(matches!(net.listen(1), Err(BaguaNetError::InnerError(_))));
    assert!(matches!(net.listen(2), Err(BaguaNetError::InnerError(_))));
    let (addr, id) = net.listen(0).unwrap();
    assert_eq!(addr, SocketAddress::V4 { ip: [127, 0, 0, 1], port: 0 });
    assert_eq!(id, 0);
    assert!(matches!(net.get_properties(2), Err(BaguaNetError::InnerError(_))));
}

#[test]
fn device_properties() {
    let net = BaguaNet::new(vec![loopback_dev(), loopback_dev()], 0, 2, 1_048_576).unwrap();
    let p = net.get_properties(1).unwrap();
    assert_eq!(p.name, "lo");
    assert_eq!(p.pci_path, "/sys/devices/virtual/net/lo");
    assert_eq!(p.guid, 1);
    assert_eq!(p.ptr_support, NCCL_PTR_HOST);
    assert_eq!(p.speed, 10000);
    assert_eq!(p.port, 0);
    assert_eq!(p.max_comms, DEFAULT_SOCKET_MAX_COMMS);
}

#[test]
fn connect_hands_out_fresh_control_worker() {
    let mut net = BaguaNet::new(Vec::new(), 0, 3, 64).unwrap();
    let (id, control) = net.connect().unwrap();
    assert_eq!(id, 0);
    assert_eq!(control.nstreams, 3);
    assert_eq!(control.task_split_threshold, 64);
    assert_eq!(control.downstream_id, 0);
}

#[test]
fn transfer_progress() {
    assert_eq!(advance_transfer(0, 10, IoOutcome::Transferred(4)).unwrap(), 4);
    assert_eq!(advance_transfer(4, 10, IoOutcome::Transferred(6)).unwrap(), 10);
    assert_eq!(advance_transfer(4, 10, IoOutcome::Retry).unwrap(), 4);
    assert!(matches!(advance_transfer(4, 10, IoOutcome::Transferred(0)), Err(BaguaNetError::IOError(_))));
    assert!(matches!(advance_transfer(4, 10, IoOutcome::Transferred(7)), Err(BaguaNetError::IOError(_))));
    assert_eq!(
        advance_transfer(0, 10, IoOutcome::Failed("reset".to_string())),
        Err(BaguaNetError::IOError("reset".to_string()))
    );
}
