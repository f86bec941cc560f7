use virtio_console::input::ConsoleInput;
use virtio_console::queue::DescriptorChain;
use virtio_console::queue::Queue;
use virtio_console::queue::UsedElem;

fn chain(index: u16) -> DescriptorChain {
    DescriptorChain { index, addr: 0x100 * u64::from(index), len: 16 }
}

#[test]
fn new_queue_is_empty() {
    let mut queue = Queue::new(8);
    assert_eq!(queue.max_size(), 8);
    assert_eq!(queue.avail_len(), 0);
    assert!(queue.used().is_empty());
    assert_eq!(queue.pop_avail(), None);
}

#[test]
fn chains_come_out_in_the_order_offered() {
    let mut queue = Queue::new(8);
    assert!(queue.offer(chain(5)));
    assert!(queue.offer(chain(2)));
    assert!(queue.offer(chain(7)));
    assert_eq!(queue.avail_len(), 3);
    assert_eq!(queue.pop_avail(), Some(chain(5)));
    assert_eq!(queue.pop_avail(), Some(chain(2)));
    assert!(queue.offer(chain(1)));
    assert_eq!(queue.pop_avail(), Some(chain(7)));
    assert_eq!(queue.pop_avail(), Some(chain(1)));
    assert_eq!(queue.pop_avail(), None);
    assert_eq!(queue.avail_len(), 0);
}

#[test]
fn full_ring_takes_no_more() {
    let mut queue = Queue::new(2);
    assert!(queue.offer(chain(0)));
    assert!(queue.offer(chain(1)));
    assert!(!queue.offer(chain(2)));
    assert_eq!(queue.avail_len(), 2);
    assert_eq!(queue.pop_avail(), Some(chain(0)));
    assert!(queue.offer(chain(2)));
    assert_eq!(queue.pop_avail(), Some(chain(1)));
    assert_eq!(queue.pop_avail(), Some(chain(2)));
}

#[test]
fn ring_of_size_zero_takes_nothing() {
    let mut queue = Queue::new(0);
    assert!(!queue.offer(chain(0)));
    assert_eq!(queue.pop_avail(), None);
}

#[test]
fn used_entries_keep_the_order_of_the_calls() {
    let mut queue = Queue::new(4);
    queue.add_used(3, 10);
    queue.add_used(1, 0);
    queue.add_used(3, 2);
    assert_eq!(
        queue.used().as_slice(),
        &[
            UsedElem { index: 3, len: 10 },
            UsedElem { index: 1, len: 0 },
            UsedElem { index: 3, len: 2 }
        ]
    );
    assert_eq!(queue.avail_len(), 0);
}

#[test]
fn channel_is_first_in_first_out() {
    let mut input = ConsoleInput::new();
    assert!(input.is_empty());
    input.queue_input_bytes(&[1, 2, 3]);
    input.queue_input_bytes(&[]);
    input.queue_input_bytes(&[4]);
    assert_eq!(input.len(), 4);
    assert!(!input.is_empty());
    assert_eq!(input.take_front(2), vec![1, 2]);
    input.queue_input_bytes(&[5, 6]);
    assert_eq!(input.take_front(3), vec![3, 4, 5]);
    assert_eq!(input.len(), 1);
}

#[test]
fn taking_more_than_is_buffered_takes_everything() {
    let mut input = ConsoleInput::new();
    input.queue_input_bytes(&[9, 8]);
    assert_eq!(input.take_front(0), Vec::<u8>::new());
    assert_eq!(input.len(), 2);
    assert_eq!(input.take_front(usize::MAX), vec![9, 8]);
    assert!(input.is_empty());
    assert_eq!(input.take_front(4), Vec::<u8>::new());
}
