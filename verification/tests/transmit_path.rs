use std::io;
use std::io::Write;
use virtio_console::handler::ConsoleEpollHandler;
use virtio_console::queue::DescriptorChain;
use virtio_console::queue::Queue;
use virtio_console::queue::UsedElem;
use vm_memory::Bytes;
use vm_memory::GuestAddress;
use vm_memory::GuestMemoryMmap;

const START: u64 = 0x4000;
const LEN: usize = 0x1000;

fn guest() -> GuestMemoryMmap<()> {
    GuestMemoryMmap::<()>::from_ranges(&[(GuestAddress(START), LEN)]).unwrap()
}

fn worker(mem: &GuestMemoryMmap<()>, chains: &[DescriptorChain]) -> ConsoleEpollHandler {
    let mut tx_queue = Queue::new(256);
    for chain in chains {
        assert!(tx_queue.offer(*chain));
    }
    ConsoleEpollHandler { rx_queue: Queue::new(256), tx_queue, mem: mem.clone() }
}

/// A sink that keeps what it is given and fails from a chosen call on.
struct Sink {
    written: Vec<u8>,
    writes: usize,
    flushes: usize,
    fail_from: usize,
}

impl Sink {
    fn new(fail_from: usize) -> Sink {
        Sink { written: Vec::new(), writes: 0, flushes: 0, fail_from }
    }
}

impl Write for Sink {
    fn write(&mut self, buf: &[u8]) -> io::Result<usize> {
        self.writes += 1;
        if self.writes >= self.fail_from {
            return Err(io::Error::new(io::ErrorKind::Other, "sink is gone"));
        }
        self.written.extend_from_slice(buf);
        Ok(buf.len())
    }

    fn flush(&mut self) -> io::Result<()> {
        self.flushes += 1;
        Ok(())
    }
}

/// Hands the records to a sink the way the worker does: each as a whole, a
/// flush after each, failures passed over.
fn forward(records: &[Vec<u8>], sink: &mut Sink) {
    for record in records {
        let _ = sink.write_all(record);
        let _ = sink.flush();
    }
}

#[test]
fn transmit_sends_two_chains_in_order() {
    let mem = guest();
    mem.write_slice(&[1, 2, 3, 4], GuestAddress(START + 0x100)).unwrap();
    mem.write_slice(&[5, 6, 7, 8, 9, 10], GuestAddress(START + 0x20)).unwrap();
    let mut handler = worker(
        &mem,
        &[
            DescriptorChain { index: 2, addr: START + 0x100, len: 4 },
            DescriptorChain { index: 0, addr: START + 0x20, len: 6 },
        ],
    );
    let mut out: Vec<Vec<u8>> = Vec::new();

    assert!(handler.process_output_queue(&mut out));

    let mut sink = Sink::new(usize::MAX);
    forward(&out, &mut sink);
    assert_eq!(sink.written, vec![1, 2, 3, 4, 5, 6, 7, 8, 9, 10]);
    assert_eq!(sink.written.len(), 10);
    assert_eq!(sink.flushes, 2);
    assert_eq!(out, vec![vec![1, 2, 3, 4], vec![5, 6, 7, 8, 9, 10]]);
    assert_eq!(
        handler.tx_queue.used().as_slice(),
        &[UsedElem { index: 2, len: 4 }, UsedElem { index: 0, len: 6 }]
    );
    assert_eq!(handler.tx_queue.avail_len(), 0);
}

#[test]
fn transmit_without_chains_sends_nothing() {
    let mem = guest();
    let mut handler = worker(&mem, &[]);
    let mut out: Vec<Vec<u8>> = vec![vec![1]];

    assert!(!handler.process_output_queue(&mut out));
    assert!(!handler.process_output_queue(&mut out));

    assert_eq!(out, vec![vec![1]]);
    assert!(handler.tx_queue.used().is_empty());
}

#[test]
fn transmit_appends_behind_earlier_records() {
    let mem = guest();
    mem.write_slice(&[0x68, 0x69], GuestAddress(START)).unwrap();
    let mut handler = worker(&mem, &[DescriptorChain { index: 1, addr: START, len: 2 }]);
    let mut out: Vec<Vec<u8>> = vec![vec![7, 7]];

    assert!(handler.process_output_queue(&mut out));

    assert_eq!(out, vec![vec![7, 7], vec![0x68, 0x69]]);
}

#[test]
fn transmit_marks_every_chain_when_the_sink_fails() {
    let mem = guest();
    mem.write_slice(&[1, 2, 3], GuestAddress(START)).unwrap();
    mem.write_slice(&[4, 5], GuestAddress(START + 8)).unwrap();
    let mut handler = worker(
        &mem,
        &[
            DescriptorChain { index: 0, addr: START, len: 3 },
            DescriptorChain { index: 1, addr: START + 8, len: 2 },
        ],
    );
    let mut out: Vec<Vec<u8>> = Vec::new();

    assert!(handler.process_output_queue(&mut out));
    let mut sink = Sink::new(2);
    forward(&out, &mut sink);

    assert_eq!(sink.written, vec![1, 2, 3]);
    assert_eq!(sink.flushes, 2);
    assert_eq!(
        handler.tx_queue.used().as_slice(),
        &[UsedElem { index: 0, len: 3 }, UsedElem { index: 1, len: 2 }]
    );
}

#[test]
fn transmit_marks_a_chain_that_cannot_be_read() {
    let mem = guest();
    mem.write_slice(&[0x21], GuestAddress(START)).unwrap();
    let mut handler = worker(
        &mem,
        &[
            DescriptorChain { index: 5, addr: 0x10, len: 16 },
            DescriptorChain { index: 6, addr: START, len: 1 },
        ],
    );
    let mut out: Vec<Vec<u8>> = Vec::new();

    assert!(handler.process_output_queue(&mut out));

    assert_eq!(out, vec![vec![], vec![0x21]]);
    assert_eq!(
        handler.tx_queue.used().as_slice(),
        &[UsedElem { index: 5, len: 16 }, UsedElem { index: 6, len: 1 }]
    );
}

#[test]
fn transmit_sends_what_can_be_read_of_a_chain() {
    let mem = guest();
    let last = START + LEN as u64 - 3;
    mem.write_slice(&[7, 8, 9], GuestAddress(last)).unwrap();
    let mut handler = worker(&mem, &[DescriptorChain { index: 0, addr: last, len: 8 }]);
    let mut out: Vec<Vec<u8>> = Vec::new();

    assert!(handler.process_output_queue(&mut out));

    assert_eq!(out, vec![vec![7, 8, 9]]);
    assert_eq!(handler.tx_queue.used().as_slice(), &[UsedElem { index: 0, len: 8 }]);
}

#[test]
fn transmit_sends_an_empty_record_for_an_empty_chain() {
    let mem = guest();
    let mut handler = worker(&mem, &[DescriptorChain { index: 3, addr: START, len: 0 }]);
    let mut out: Vec<Vec<u8>> = Vec::new();

    assert!(handler.process_output_queue(&mut out));

    assert_eq!(out, vec![Vec::<u8>::new()]);
    assert_eq!(handler.tx_queue.used().as_slice(), &[UsedElem { index: 3, len: 0 }]);
}

#[test]
fn transmit_leaves_the_receive_queue_alone() {
    let mem = guest();
    let mut handler = worker(&mem, &[DescriptorChain { index: 0, addr: START, len: 1 }]);
    assert!(handler.rx_queue.offer(DescriptorChain { index: 9, addr: START + 0x40, len: 4 }));
    let mut out: Vec<Vec<u8>> = Vec::new();

    assert!(handler.process_output_queue(&mut out));

    assert_eq!(handler.rx_queue.avail_len(), 1);
    assert!(handler.rx_queue.used().is_empty());
}
