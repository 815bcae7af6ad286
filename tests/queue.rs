use atmosensor::codec::{Command, SensorCommand, SetAltitude};
use atmosensor::queue::{CommandQueue, QueueFull};

fn cmd(v: u16) -> Command {
    Command::Sensor(SensorCommand::SetAltitude(SetAltitude { altitude: v }))
}

#[test]
fn fifo_order_with_interleaved_pops() {
    let mut q: CommandQueue<8> = CommandQueue::new();
    let mut popped = Vec::new();
    for v in 0..3 {
        q.push(cmd(v)).unwrap();
    }
    popped.push(q.pop().unwrap());
    for v in 3..6 {
        q.push(cmd(v)).unwrap();
    }
    popped.push(q.pop().unwrap());
    popped.push(q.pop().unwrap());
    while let Some(c) = q.pop() {
        popped.push(c);
    }
    let expected: Vec<Command> = (0..6).map(cmd).collect();
    assert_eq!(popped, expected);
}

#[test]
fn fifo_order_across_wrap_around() {
    let mut q: CommandQueue<4> = CommandQueue::new();
    let mut next_in = 0u16;
    let mut next_out = 0u16;
    for _ in 0..10 {
        q.push(cmd(next_in)).unwrap();
        next_in += 1;
        q.push(cmd(next_in)).unwrap();
        next_in += 1;
        assert_eq!(q.pop(), Some(cmd(next_out)));
        next_out += 1;
        assert_eq!(q.pop(), Some(cmd(next_out)));
        next_out += 1;
    }
    assert!(q.is_empty());
}

#[test]
fn capacity_is_one_less_than_slots() {
    let mut q: CommandQueue<4> = CommandQueue::new();
    assert!(q.is_empty());
    for v in 0..3 {
        assert_eq!(q.push(cmd(v)), Ok(()));
    }
    assert!(q.full());
    assert_eq!(q.len(), 3);
    assert_eq!(q.push(cmd(99)), Err(QueueFull));
    assert_eq!(q.pop(), Some(cmd(0)));
    assert_eq!(q.push(cmd(3)), Ok(()));
    assert_eq!(q.push(cmd(4)), Err(QueueFull));
    for v in 1..4 {
        assert_eq!(q.pop(), Some(cmd(v)));
    }
    assert_eq!(q.pop(), None);
}

#[test]
fn full_when_write_is_one_behind_read_in_the_middle() {
    let mut q: CommandQueue<5> = CommandQueue::new();
    for v in 0..3 {
        q.push(cmd(v)).unwrap();
    }
    for _ in 0..3 {
        q.pop().unwrap();
    }
    for v in 0..4 {
        q.push(cmd(v)).unwrap();
    }
    assert!(q.full());
    assert_eq!(q.push(cmd(9)), Err(QueueFull));
}

#[test]
fn pop_on_empty_returns_nothing() {
    let mut q: CommandQueue<2> = CommandQueue::new();
    assert_eq!(q.pop(), None);
    q.push(Command::Nop).unwrap();
    assert!(q.full());
    assert_eq!(q.pop(), Some(Command::Nop));
    assert_eq!(q.pop(), None);
}

#[test]
fn single_slot_queue_holds_nothing() {
    let mut q: CommandQueue<1> = CommandQueue::new();
    assert!(q.full());
    assert!(q.is_empty());
    assert_eq!(q.push(cmd(1)), Err(QueueFull));
}
