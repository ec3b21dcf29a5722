//! What goes into a ring, and what comes out.

use futures::channel::oneshot;
use std::task::{Context, Waker};
use win_ioring::driver::Completion;
use win_ioring::handle::HandleRef;
use win_ioring::io_ring::{
    pop_completion, BufferInfo, BufferRef, IoRingBuilder, Read, ReadArg, ReadFut, ReadFutState,
    ReadPoll, RingSettings, DEFAULT_QUEUE_SIZE,
};
use win_ioring::join::Received;

#[test]
fn a_builder_that_was_told_nothing_uses_the_defaults() {
    let builder = IoRingBuilder::new();
    assert!(builder.needs_version());
    assert_eq!(
        builder.build(300),
        RingSettings { version: 300, submission_queue_size: 20, completion_queue_size: 20 }
    );
    assert_eq!(DEFAULT_QUEUE_SIZE, 20);
}

#[test]
fn a_builder_uses_what_it_was_told() {
    let builder = IoRingBuilder::new()
        .with_submission_queue_size(2)
        .with_completion_queue_size(4)
        .with_version(1);
    assert!(!builder.needs_version());
    assert_eq!(
        builder.build(300),
        RingSettings { version: 1, submission_queue_size: 2, completion_queue_size: 4 }
    );
}

#[test]
fn read_arguments_are_set_one_by_one() {
    let arg = ReadArg::new();
    assert_eq!(arg.handle_ref, HandleRef::Raw(0));
    assert_eq!(arg.data_ref, BufferRef::Raw(0));
    let arg = arg
        .with_file(5)
        .with_buffer(0x1000)
        .with_numofbytestoread(20)
        .with_offset(7)
        .with_userdata(11);
    assert_eq!(
        arg,
        ReadArg {
            handle_ref: HandleRef::Raw(5),
            data_ref: BufferRef::Raw(0x1000),
            numofbytestoread: 20,
            offset: 7,
            userdata: 11,
        }
    );
    let arg = arg.with_regestered_file(3).with_registered_buffer(1, 2);
    assert_eq!(arg.handle_ref, HandleRef::Registered(3));
    assert_eq!(arg.data_ref, BufferRef::Registered { index: 1, offset: 2 });
}

#[test]
fn a_read_starts_at_the_front_of_the_file() {
    let mut read = Read::new(9, 0x2000, 255).expect("never fails");
    assert_eq!((read.len, read.offset, read.userdata), (255, 0, 0));
    assert_eq!(read.handle_ref, HandleRef::Raw(9));
    read.userdata(11);
    assert_eq!(read.userdata, 11);
    assert_eq!(read.userdata(12).userdata(13).userdata, 13);
    assert_eq!(read.userdata, 13);
    assert_eq!(BufferInfo::new(0x3000, 64), BufferInfo { address: 0x3000, length: 64 });
}

#[test]
fn an_empty_queue_pops_nothing() {
    let out = Completion { user_data: 11, code: 0, information: 20 };
    assert_eq!(pop_completion(0, out).unwrap().user_data, 11);
    assert!(pop_completion(1, out).is_none());
}

#[test]
fn a_read_waits_for_the_driver_and_gets_its_buffer_back() {
    let mut cx = Context::from_waker(Waker::noop());
    let (tx, rx) = oneshot::channel();
    let mut read = ReadFut::new(rx);
    assert!(matches!(read.poll(&mut cx), ReadPoll::Pending));
    tx.send((vec![1, 2, 3], 0)).unwrap();
    match read.poll(&mut cx) {
        ReadPoll::Ready((result, buffer)) => {
            assert!(result.is_ok());
            assert_eq!(buffer, vec![1, 2, 3]);
        }
        other => panic!("expected the buffer, got {other:?}"),
    }
    assert_eq!(read.state, ReadFutState::Completed);
}

#[test]
fn a_failed_read_gives_its_code_and_its_buffer() {
    let (_tx, rx) = oneshot::channel();
    let mut read = ReadFut::new(rx);
    assert!(matches!(read.received(Received::Pending), ReadPoll::Pending));
    match read.received(Received::Value((vec![4], -7))) {
        ReadPoll::Ready((result, buffer)) => {
            let error = result.unwrap_err();
            assert_eq!(error.code, -7);
            assert!(error.text.contains("0xFFFFFFF9"), "{}", error.text);
            assert_eq!(buffer, vec![4]);
        }
        other => panic!("expected the buffer, got {other:?}"),
    }
}

#[test]
fn a_read_notices_that_the_driver_is_gone() {
    let mut cx = Context::from_waker(Waker::noop());
    let (tx, rx) = oneshot::channel();
    drop(tx);
    let mut read = ReadFut::new(rx);
    assert!(matches!(read.poll(&mut cx), ReadPoll::DriverClosed));
}
