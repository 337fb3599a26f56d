use geopmdrs::handle::{Admission, BackendHandle, NotHolder};

#[test]
fn new_handle_is_free() {
    let handle = BackendHandle::new();
    assert_eq!(handle.holder(), None);
    assert_eq!(handle.waiting(), 0);
}

#[test]
fn first_call_gets_the_connection_at_once() {
    let mut handle = BackendHandle::new();
    assert_eq!(handle.acquire(), Some(Admission::Granted(0)));
    assert_eq!(handle.holder(), Some(0));
    assert_eq!(handle.waiting(), 0);
}

#[test]
fn later_calls_wait_in_line() {
    let mut handle = BackendHandle::new();
    assert_eq!(handle.acquire(), Some(Admission::Granted(0)));
    assert_eq!(handle.acquire(), Some(Admission::Queued(1)));
    assert_eq!(handle.acquire(), Some(Admission::Queued(2)));
    assert_eq!(handle.holder(), Some(0));
    assert_eq!(handle.waiting(), 2);
}

#[test]
fn connection_passes_on_in_ticket_order() {
    let mut handle = BackendHandle::new();
    for _ in 0..4 {
        handle.acquire();
    }
    assert_eq!(handle.release(0), Ok(Some(1)));
    assert_eq!(handle.holder(), Some(1));
    assert_eq!(handle.release(1), Ok(Some(2)));
    assert_eq!(handle.release(2), Ok(Some(3)));
    assert_eq!(handle.waiting(), 0);
    assert_eq!(handle.release(3), Ok(None));
    assert_eq!(handle.holder(), None);
}

#[test]
fn only_the_holder_gives_the_connection_back() {
    let mut handle = BackendHandle::new();
    handle.acquire();
    handle.acquire();
    handle.acquire();
    assert_eq!(handle.release(1), Err(NotHolder));
    assert_eq!(handle.release(2), Err(NotHolder));
    assert_eq!(handle.release(3), Err(NotHolder));
    assert_eq!(handle.release(u64::MAX), Err(NotHolder));
    assert_eq!(handle.holder(), Some(0));
    assert_eq!(handle.waiting(), 2);
    assert_eq!(handle.release(0), Ok(Some(1)));
    assert_eq!(handle.release(0), Err(NotHolder));
    assert_eq!(handle.holder(), Some(1));
}

#[test]
fn free_handle_has_nothing_to_give_back() {
    let mut handle = BackendHandle::new();
    assert_eq!(handle.release(0), Err(NotHolder));
    handle.acquire();
    assert_eq!(handle.release(0), Ok(None));
    assert_eq!(handle.release(0), Err(NotHolder));
    assert_eq!(handle.release(1), Err(NotHolder));
    assert_eq!(handle.holder(), None);
}

#[test]
fn freed_handle_is_granted_at_once_again() {
    let mut handle = BackendHandle::new();
    assert_eq!(handle.acquire(), Some(Admission::Granted(0)));
    assert_eq!(handle.release(0), Ok(None));
    assert_eq!(handle.acquire(), Some(Admission::Granted(1)));
    assert_eq!(handle.acquire(), Some(Admission::Queued(2)));
    assert_eq!(handle.release(1), Ok(Some(2)));
    assert_eq!(handle.release(2), Ok(None));
    assert_eq!(handle.acquire(), Some(Admission::Granted(3)));
}

#[test]
fn never_more_than_one_holder() {
    // Calls arrive and finish in a fixed but irregular pattern; a ledger of
    // who was handed the connection and who gave it back is kept beside.
    let mut handle = BackendHandle::new();
    let mut holders: Vec<u64> = Vec::new();
    let mut handed_out: Vec<u64> = Vec::new();
    let mut seed: u32 = 12345;
    for _ in 0..2000 {
        seed = seed.wrapping_mul(1103515245).wrapping_add(12345);
        if (seed >> 16) % 3 != 0 {
            match handle.acquire() {
                Some(Admission::Granted(t)) => {
                    holders.push(t);
                    handed_out.push(t);
                }
                Some(Admission::Queued(_)) => {}
                None => panic!("tickets cannot run out here"),
            }
        } else if let Some(t) = holders.pop() {
            if let Ok(Some(next)) = handle.release(t) {
                holders.push(next);
                handed_out.push(next);
            }
        }
        assert!(holders.len() <= 1);
        assert_eq!(handle.holder(), holders.first().copied());
    }
    let in_order: Vec<u64> = (0..handed_out.len() as u64).collect();
    assert_eq!(handed_out, in_order);
}

#[test]
fn handle_can_start_at_any_ticket() {
    let mut handle = BackendHandle::starting_at(40);
    assert_eq!(handle.holder(), None);
    assert_eq!(handle.acquire(), Some(Admission::Granted(40)));
    assert_eq!(handle.acquire(), Some(Admission::Queued(41)));
    assert_eq!(handle.release(40), Ok(Some(41)));
}

#[test]
fn tickets_run_out_at_the_largest_number() {
    let mut handle = BackendHandle::starting_at(u64::MAX - 2);
    assert_eq!(handle.acquire(), Some(Admission::Granted(u64::MAX - 2)));
    assert_eq!(handle.acquire(), Some(Admission::Queued(u64::MAX - 1)));
    assert_eq!(handle.acquire(), None);
    assert_eq!(handle.acquire(), None);
    assert_eq!(handle.holder(), Some(u64::MAX - 2));
    assert_eq!(handle.waiting(), 1);
    assert_eq!(handle.release(u64::MAX - 2), Ok(Some(u64::MAX - 1)));
    assert_eq!(handle.release(u64::MAX - 1), Ok(None));
    assert_eq!(handle.acquire(), None);
    assert_eq!(handle.holder(), None);
}

#[test]
fn admission_names_its_ticket() {
    assert_eq!(Admission::Granted(7).ticket(), 7);
    assert_eq!(Admission::Queued(8).ticket(), 8);
}
