use foxterm::pty::{loop_step, valid_prefix, LoopStep, Pty, PtyError, PtyState, BUFFER_SIZE};

#[test]
fn buffer_size_is_sixty_four_kibibytes() {
    assert_eq!(BUFFER_SIZE, 65536);
}

#[test]
fn a_new_pty_is_open() {
    let pty = Pty::new(7);
    assert_eq!(pty.fd(), 7);
    assert!(!pty.is_closed());
    assert_eq!(pty.descriptor(), Ok(7));
}

#[test]
fn close_releases_the_descriptor() {
    let mut pty = Pty::new(7);
    assert_eq!(pty.close(), Some(7));
    assert!(pty.is_closed());
    assert_eq!(pty.fd(), 7);
}

#[test]
fn read_and_write_fail_after_close() {
    let mut pty = Pty::new(3);
    pty.close();
    assert_eq!(pty.descriptor(), Err(PtyError::BadDescriptor));
    assert_eq!(loop_step(&pty.descriptor()), LoopStep::Stop);
}

#[test]
fn a_second_close_does_nothing() {
    let mut pty = Pty::new(11);
    assert_eq!(pty.close(), Some(11));
    assert_eq!(pty.close(), None);
    assert_eq!(pty.close(), None);
    assert!(pty.is_closed());
    assert_eq!(pty.fd(), 11);
    assert_eq!(pty.descriptor(), Err(PtyError::BadDescriptor));
}

#[test]
fn state_compares_by_fields() {
    assert_eq!(PtyState { fd: 1, open: true }, PtyState { fd: 1, open: true });
    assert_ne!(PtyState { fd: 1, open: true }, PtyState { fd: 1, open: false });
}

#[test]
fn loop_goes_on_after_success() {
    let read: Result<Vec<u8>, PtyError> = Ok(vec![1, 2, 3]);
    assert_eq!(loop_step(&read), LoopStep::Continue);
    let written: Result<(), PtyError> = Ok(());
    assert_eq!(loop_step(&written), LoopStep::Continue);
}

#[test]
fn loop_stops_on_a_bad_descriptor() {
    let read: Result<Vec<u8>, PtyError> = Err(PtyError::BadDescriptor);
    assert_eq!(loop_step(&read), LoopStep::Stop);
}

#[test]
fn loop_reports_any_other_error() {
    let read: Result<Vec<u8>, PtyError> = Err(PtyError::Other(5));
    assert_eq!(loop_step(&read), LoopStep::Report);
    let written: Result<(), PtyError> = Err(PtyError::Other(-1));
    assert_eq!(loop_step(&written), LoopStep::Report);
}

#[test]
fn valid_prefix_cuts_the_padding() {
    assert_eq!(valid_prefix(vec![b'l', b's', b'\n', 0, 0, 0]), vec![b'l', b's', b'\n']);
}

#[test]
fn valid_prefix_keeps_zeros_inside() {
    assert_eq!(valid_prefix(vec![1, 0, 0, 2, 0]), vec![1, 0, 0, 2]);
    assert_eq!(valid_prefix(vec![0, 0, 9]), vec![0, 0, 9]);
}

#[test]
fn valid_prefix_of_a_full_buffer_is_the_buffer() {
    assert_eq!(valid_prefix(vec![4, 5, 6]), vec![4, 5, 6]);
}

#[test]
fn valid_prefix_of_nothing_read_is_empty() {
    assert_eq!(valid_prefix(vec![0; BUFFER_SIZE]), Vec::<u8>::new());
    assert_eq!(valid_prefix(Vec::new()), Vec::<u8>::new());
}

#[test]
fn valid_prefix_of_a_short_read_in_a_full_size_buffer() {
    let mut buffer = vec![0u8; BUFFER_SIZE];
    buffer[0] = 27;
    buffer[1] = b'[';
    buffer[2] = b'K';
    assert_eq!(valid_prefix(buffer), vec![27, b'[', b'K']);
}
