use buffer_pool::disk_manager::{check_read_count, check_read_start, page_offset, DiskManagerError};
use buffer_pool::disk_scheduler::{DiskSchedulerError, Request, RequestQueue, WorkerStep};
use buffer_pool::fixture::create_random_binary_page_data;
use buffer_pool::PAGE_SIZE;

#[test]
fn page_offsets_are_page_multiples() {
    assert_eq!(page_offset(0), Some(0));
    assert_eq!(page_offset(3), Some(12288));
    assert_eq!(page_offset(usize::MAX), None);
}

#[test]
fn read_past_end_of_file_fails() {
    let offset = page_offset(5).unwrap();
    assert!(matches!(check_read_start(4096, offset), Err(DiskManagerError::CouldNotRead)));
    assert!(check_read_start(offset, offset).is_ok());
    assert!(check_read_start(offset + 1, offset).is_ok());
}

#[test]
fn short_read_fails() {
    assert!(matches!(check_read_count(0), Err(DiskManagerError::PageNotFound)));
    assert!(matches!(check_read_count(PAGE_SIZE - 1), Err(DiskManagerError::PageNotFound)));
    assert!(check_read_count(PAGE_SIZE).is_ok());
}

#[test]
fn queue_hands_out_requests_in_order() {
    let mut queue = RequestQueue::new();
    queue.submit(Request::Read(1)).unwrap();
    queue.submit(Request::Write(2, [9; PAGE_SIZE])).unwrap();
    assert_eq!(queue.len(), 2);
    assert!(matches!(queue.next_step(), WorkerStep::Execute(Request::Read(1))));
    match queue.next_step() {
        WorkerStep::Execute(Request::Write(2, bytes)) => assert_eq!(bytes, [9; PAGE_SIZE]),
        _ => panic!("the write was expected second"),
    }
    assert!(matches!(queue.next_step(), WorkerStep::Wait));
}

#[test]
fn shut_down_queue_drains_then_exits() {
    let mut queue = RequestQueue::new();
    queue.submit(Request::Read(4)).unwrap();
    queue.shut_down();
    assert!(matches!(queue.submit(Request::Read(5)), Err(DiskSchedulerError::ShutDown)));
    assert_eq!(queue.len(), 1);
    assert!(matches!(queue.next_step(), WorkerStep::Execute(Request::Read(4))));
    assert!(matches!(queue.next_step(), WorkerStep::Exit));
    assert!(matches!(queue.next_step(), WorkerStep::Exit));
}

#[test]
fn random_page_data_is_not_blank_and_repeats() {
    let data = create_random_binary_page_data();
    assert_ne!(data, [0; PAGE_SIZE]);
    assert_eq!(data, create_random_binary_page_data());
}
