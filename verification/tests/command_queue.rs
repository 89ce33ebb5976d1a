use omm::command::{
    new_command_channel, take_popped, QueueFull, MAX_DRAIN_PER_BLOCK, RT_QUEUE_CAPACITY,
};

fn command(index: u32) -> u32 {
    index
}

#[test]
fn full_capacity_accepts_1024_and_rejects_1025th() {
    let (mut queue, _receiver) = new_command_channel::<u32>();

    for index in 0..RT_QUEUE_CAPACITY {
        assert!(queue.enqueue(command(index as u32)).is_ok());
    }

    assert!(matches!(
        queue.enqueue(command(RT_QUEUE_CAPACITY as u32)),
        Err(QueueFull)
    ));
}

#[test]
fn drain_stops_at_requested_max() {
    let (mut queue, mut receiver) = new_command_channel::<u32>();

    for index in 0..10 {
        assert!(queue.enqueue(command(index)).is_ok());
    }

    let mut drained = Vec::new();
    let count = receiver.drain(&mut drained, 3);

    assert_eq!(count, 3);
    assert_eq!(drained, [0, 1, 2]);

    let count = receiver.drain(&mut drained, MAX_DRAIN_PER_BLOCK);

    assert_eq!(count, 7);
    assert_eq!(drained, [0, 1, 2, 3, 4, 5, 6, 7, 8, 9]);
}

#[test]
fn full_queue_drains_in_sixteen_bounded_blocks() {
    let (mut queue, mut receiver) = new_command_channel::<u32>();

    for index in 0..RT_QUEUE_CAPACITY {
        assert!(queue.enqueue(command(index as u32)).is_ok());
    }

    let mut drained = Vec::new();
    let mut total = 0;

    for _ in 0..16 {
        total += receiver.drain(&mut drained, MAX_DRAIN_PER_BLOCK);
    }

    assert_eq!(total, RT_QUEUE_CAPACITY);
    assert_eq!(drained.len(), RT_QUEUE_CAPACITY);
    let mut rest = Vec::new();
    assert_eq!(receiver.drain(&mut rest, MAX_DRAIN_PER_BLOCK), 0);

    for (index, value) in drained.into_iter().enumerate() {
        assert_eq!(value, index as u32);
    }
}

#[test]
fn drain_appends_after_existing_commands() {
    let (mut queue, mut receiver) = new_command_channel::<u32>();
    queue.enqueue(7).unwrap();
    let mut sink = vec![1, 2];
    assert_eq!(receiver.drain(&mut sink, 5), 1);
    assert_eq!(sink, vec![1, 2, 7]);
}

#[test]
fn empty_queue_drains_nothing() {
    let (_queue, mut receiver) = new_command_channel::<u32>();
    let mut sink = Vec::new();
    assert_eq!(receiver.drain(&mut sink, MAX_DRAIN_PER_BLOCK), 0);
    assert!(sink.is_empty());
}

#[test]
fn popped_commands_are_appended_and_an_empty_pop_ends_the_drain() {
    let mut sink: Vec<u32> = vec![7];
    assert!(take_popped(&mut sink, Some(9)));
    assert_eq!(sink, vec![7, 9]);
    assert!(!take_popped(&mut sink, None));
    assert_eq!(sink, vec![7, 9]);
}
