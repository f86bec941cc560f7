use virtio_console::handler::ConsoleEpollHandler;
use virtio_console::input::ConsoleInput;
use virtio_console::queue::DescriptorChain;
use virtio_console::queue::Queue;
use virtio_console::queue::UsedElem;
use vm_memory::Bytes;
use vm_memory::GuestAddress;
use vm_memory::GuestMemoryMmap;

const BASE: u64 = 0x1000;
const SIZE: usize = 0x1000;

fn memory() -> GuestMemoryMmap<()> {
    GuestMemoryMmap::<()>::from_ranges(&[(GuestAddress(BASE), SIZE)]).unwrap()
}

fn read(mem: &GuestMemoryMmap<()>, addr: u64, len: usize) -> Vec<u8> {
    let mut buf = vec![0u8; len];
    mem.read_slice(&mut buf, GuestAddress(addr)).unwrap();
    buf
}

fn handler_with(mem: &GuestMemoryMmap<()>, chains: &[DescriptorChain]) -> ConsoleEpollHandler {
    let mut rx_queue = Queue::new(256);
    for chain in chains {
        assert!(rx_queue.offer(*chain));
    }
    ConsoleEpollHandler { rx_queue, tx_queue: Queue::new(256), mem: mem.clone() }
}

fn channel_with(bytes: &[u8]) -> ConsoleInput {
    let mut input = ConsoleInput::new();
    input.queue_input_bytes(bytes);
    input
}

fn chain(index: u16, addr: u64, len: u32) -> DescriptorChain {
    DescriptorChain { index, addr, len }
}

fn used(index: u16, len: u32) -> UsedElem {
    UsedElem { index, len }
}

#[test]
fn receive_fills_one_chain_and_keeps_the_rest() {
    let mem = memory();
    let mut handler = handler_with(&mem, &[chain(7, BASE, 2)]);
    let mut input = channel_with(&[0x41, 0x42, 0x43]);

    assert!(handler.process_input_queue(&mut input));

    assert_eq!(read(&mem, BASE, 2), vec![0x41, 0x42]);
    assert_eq!(handler.rx_queue.used().as_slice(), &[used(7, 2)]);
    assert_eq!(handler.rx_queue.avail_len(), 0);
    assert_eq!(input.len(), 1);
    assert_eq!(input.take_front(8), vec![0x43]);
}

#[test]
fn receive_with_empty_channel_touches_nothing() {
    let mem = memory();
    mem.write_slice(&[9, 9, 9, 9], GuestAddress(BASE)).unwrap();
    let mut handler = handler_with(&mem, &[chain(1, BASE, 4), chain(2, BASE + 4, 4)]);
    let mut input = ConsoleInput::new();

    assert!(!handler.process_input_queue(&mut input));

    assert!(handler.rx_queue.used().is_empty());
    assert_eq!(handler.rx_queue.avail_len(), 2);
    assert!(input.is_empty());
    assert_eq!(read(&mem, BASE, 4), vec![9, 9, 9, 9]);
    // The chains are still there for the next pass.
    input.queue_input_bytes(&[1, 2, 3]);
    assert!(handler.process_input_queue(&mut input));
    assert_eq!(handler.rx_queue.used().as_slice(), &[used(1, 3)]);
    assert_eq!(handler.rx_queue.avail_len(), 1);
}

#[test]
fn receive_without_chains_keeps_the_bytes() {
    let mem = memory();
    let mut handler = handler_with(&mem, &[]);
    let mut input = channel_with(&[5, 6, 7]);

    assert!(!handler.process_input_queue(&mut input));
    assert!(!handler.process_input_queue(&mut input));

    assert!(handler.rx_queue.used().is_empty());
    assert_eq!(input.len(), 3);
    assert_eq!(input.take_front(3), vec![5, 6, 7]);
}

#[test]
fn receive_splits_a_burst_over_chains() {
    let mem = memory();
    let mut handler = handler_with(
        &mem,
        &[chain(3, BASE + 0x10, 4), chain(1, BASE + 0x20, 1), chain(2, BASE + 0x30, 8)],
    );
    let mut input = channel_with(&[10, 11, 12, 13, 14, 15, 16]);

    assert!(handler.process_input_queue(&mut input));

    assert_eq!(read(&mem, BASE + 0x10, 4), vec![10, 11, 12, 13]);
    assert_eq!(read(&mem, BASE + 0x20, 1), vec![14]);
    assert_eq!(read(&mem, BASE + 0x30, 2), vec![15, 16]);
    assert_eq!(read(&mem, BASE + 0x32, 2), vec![0, 0]);
    assert_eq!(handler.rx_queue.used().as_slice(), &[used(3, 4), used(1, 1), used(2, 2)]);
    assert_eq!(handler.rx_queue.avail_len(), 0);
    assert!(input.is_empty());
}

#[test]
fn receive_stops_fetching_once_the_channel_is_drained() {
    let mem = memory();
    let mut handler = handler_with(&mem, &[chain(0, BASE, 4), chain(1, BASE + 4, 4)]);
    let mut input = channel_with(&[1, 2, 3, 4]);

    assert!(handler.process_input_queue(&mut input));

    assert_eq!(handler.rx_queue.used().as_slice(), &[used(0, 4)]);
    assert_eq!(handler.rx_queue.avail_len(), 1);
    assert!(input.is_empty());
}

#[test]
fn receive_marks_a_chain_without_room_with_length_zero() {
    let mem = memory();
    let mut handler = handler_with(&mem, &[chain(4, BASE, 0), chain(5, BASE + 8, 2)]);
    let mut input = channel_with(&[0xaa, 0xbb]);

    assert!(handler.process_input_queue(&mut input));

    assert_eq!(handler.rx_queue.used().as_slice(), &[used(4, 0), used(5, 2)]);
    assert_eq!(read(&mem, BASE + 8, 2), vec![0xaa, 0xbb]);
    assert!(input.is_empty());
}

#[test]
fn receive_reports_at_most_the_length_of_each_chain() {
    let mem = memory();
    let chains = [chain(0, BASE, 3), chain(1, BASE + 0x100, 5), chain(2, BASE + 0x200, 2)];
    let mut handler = handler_with(&mem, &chains);
    let mut input = channel_with(&[1; 9]);

    assert!(handler.process_input_queue(&mut input));

    let entries = handler.rx_queue.used();
    assert_eq!(entries.len(), 3);
    for (entry, chain) in entries.iter().zip(chains.iter()) {
        assert_eq!(entry.index, chain.index);
        assert!(entry.len <= chain.len);
    }
    assert_eq!(entries.iter().map(|e| e.len as usize).sum::<usize>(), 9);
}

#[test]
fn receive_stops_at_a_faulting_write() {
    let mem = memory();
    let unmapped = BASE + SIZE as u64 + 0x100;
    let mut handler =
        handler_with(&mem, &[chain(1, BASE, 2), chain(2, unmapped, 2), chain(3, BASE + 8, 2)]);
    let mut input = channel_with(&[1, 2, 3, 4, 5, 6]);

    assert!(handler.process_input_queue(&mut input));

    // The chain written before the fault is reported.
    assert_eq!(handler.rx_queue.used().as_slice(), &[used(1, 2)]);
    assert_eq!(read(&mem, BASE, 2), vec![1, 2]);
    // The chain behind the faulting one was not fetched and not written.
    assert_eq!(handler.rx_queue.avail_len(), 1);
    assert_eq!(read(&mem, BASE + 8, 2), vec![0, 0]);
    // The bytes that no chain had taken are still buffered, in order.
    assert_eq!(input.len(), 2);
    let mut again = input;
    assert!(handler.process_input_queue(&mut again));
    assert_eq!(handler.rx_queue.used().as_slice(), &[used(1, 2), used(3, 2)]);
    assert_eq!(read(&mem, BASE + 8, 2), vec![5, 6]);
}

#[test]
fn receive_fault_on_the_first_chain_reports_nothing() {
    let mem = memory();
    let mut handler = handler_with(&mem, &[chain(9, 0x10, 4)]);
    let mut input = channel_with(&[1, 2, 3, 4, 5]);

    assert!(!handler.process_input_queue(&mut input));

    assert!(handler.rx_queue.used().is_empty());
    assert_eq!(handler.rx_queue.avail_len(), 0);
    assert_eq!(input.take_front(8), vec![5]);
}

#[test]
fn receive_write_over_the_end_of_memory_stores_what_fits() {
    let mem = memory();
    let last = BASE + SIZE as u64 - 2;
    let mut handler = handler_with(&mem, &[chain(0, last, 4)]);
    let mut input = channel_with(&[0x11, 0x22, 0x33, 0x44]);

    assert!(!handler.process_input_queue(&mut input));

    assert_eq!(read(&mem, last, 2), vec![0x11, 0x22]);
    assert!(handler.rx_queue.used().is_empty());
    assert!(input.is_empty());
}

#[test]
fn receive_across_passes_delivers_the_stream_in_order() {
    let mem = memory();
    let mut handler = handler_with(&mem, &[]);
    let mut input = ConsoleInput::new();
    let mut injected: Vec<u8> = Vec::new();
    let mut delivered: Vec<u8> = Vec::new();
    let mut next_addr = BASE;
    let mut next_index: u16 = 0;
    let mut reported = 0;

    let batches: [&[u8]; 4] = [&[1, 2, 3], &[], &[4, 5, 6, 7, 8, 9, 10], &[11]];
    let offers: [&[u32]; 4] = [&[2], &[4, 1], &[], &[3, 3, 3]];
    for round in 0..4 {
        input.queue_input_bytes(batches[round]);
        injected.extend_from_slice(batches[round]);
        let mut offered = Vec::new();
        for len in offers[round] {
            let c = chain(next_index, next_addr, *len);
            assert!(handler.rx_queue.offer(c));
            offered.push(c);
            next_addr += 0x10;
            next_index += 1;
        }
        handler.process_input_queue(&mut input);
        let entries = handler.rx_queue.used().clone();
        for entry in &entries[reported..] {
            let addr = BASE + 0x10 * entry.index as u64;
            delivered.extend(read(&mem, addr, entry.len as usize));
        }
        reported = entries.len();
        let mut expected = delivered.clone();
        let left = input.len();
        expected.extend_from_slice(&injected[injected.len() - left..]);
        assert_eq!(expected, injected);
    }
    assert!(input.is_empty());
    assert_eq!(delivered, injected);
    assert_eq!(delivered, vec![1, 2, 3, 4, 5, 6, 7, 8, 9, 10, 11]);
}
