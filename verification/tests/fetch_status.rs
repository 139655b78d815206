use funnel::fetch_status::FetchStatus;

#[test]
fn new_status_has_nothing_done() {
    let s = FetchStatus::new();
    assert!(!s.messages());
    assert!(!s.counts());
    assert!(!s.activities());
    assert!(!s.all_done());
}

#[test]
fn all_done_after_every_kind_is_done() {
    let mut s = FetchStatus::new();
    s.messages_done();
    assert!(!s.all_done());
    s.counts_done();
    assert!(!s.all_done());
    s.activities_done();
    assert!(s.all_done());
}
