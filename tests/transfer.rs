use range_resume::content_range::{ContentRange, RangeError};
use range_resume::transfer::{
    Action, DownloadError, Event, Phase, ProbeResult, RetryPolicy, Transfer,
};

/// An in-memory output file and a server holding `resource` that honours
/// byte ranges, hands the body out `chunk` bytes at a time, and breaks the
/// connection once at each offset listed in `failures`.
struct World {
    file: Option<Vec<u8>>,
    resource: Vec<u8>,
    chunk: usize,
    failures: Vec<usize>,
    requests: Vec<Vec<u8>>,
    served: usize,
}

impl World {
    fn new(file: Option<Vec<u8>>, resource: &[u8], chunk: usize, failures: Vec<usize>) -> World {
        World { file, resource: resource.to_vec(), chunk, failures, requests: vec![], served: 0 }
    }

    fn answer(&mut self, action: Action) -> Option<Event> {
        match action {
            Action::Probe => Some(Event::Probed(match &self.file {
                Some(f) => ProbeResult::Length(f.len() as u64),
                None => ProbeResult::NotFound,
            })),
            Action::Request { offset, range } => {
                self.requests.push(range);
                let total = self.resource.len();
                if offset as usize >= total {
                    Some(Event::Responded { status: 416, content_range: None })
                } else {
                    self.served = offset as usize;
                    let header = ContentRange {
                        start: offset,
                        end: total as u64 - 1,
                        total: total as u64,
                    };
                    Some(Event::Responded { status: 206, content_range: Some(header.to_bytes()) })
                }
            }
            Action::OpenAppend => {
                self.file.get_or_insert_with(Vec::new);
                Some(Event::Opened)
            }
            Action::ReadChunk => {
                if let Some(i) = self.failures.iter().position(|&f| f == self.served) {
                    self.failures.remove(i);
                    return Some(Event::StreamFailed);
                }
                if self.served >= self.resource.len() {
                    return Some(Event::EndOfStream);
                }
                let mut stop = (self.served + self.chunk).min(self.resource.len());
                for &f in &self.failures {
                    if f > self.served && f < stop {
                        stop = f;
                    }
                }
                let piece = self.resource[self.served..stop].to_vec();
                self.served = stop;
                Some(Event::Chunk(piece))
            }
            Action::Append(d) => {
                self.file.as_mut().unwrap().extend_from_slice(&d);
                Some(Event::Appended)
            }
            Action::Recover { .. } => Some(Event::Recovered),
            Action::Finish | Action::Fail(_) => None,
        }
    }
}

/// Runs a transfer against `world` and returns the last action with the state.
fn drive(world: &mut World, policy: RetryPolicy) -> (Action, Transfer) {
    let mut t = Transfer::new(policy);
    let mut action = Action::Probe;
    loop {
        match world.answer(action.clone()) {
            None => return (action, t),
            Some(e) => {
                assert!(t.accepts(&e));
                action = t.step(e);
            }
        }
    }
}

fn resource(n: usize) -> Vec<u8> {
    (0..n).map(|i| (i * 7 % 251) as u8).collect()
}

fn requesting(offset: u64) -> Transfer {
    let mut t = Transfer::new(RetryPolicy::unlimited());
    t.step(Event::Probed(ProbeResult::Length(offset)));
    t
}

#[test]
fn resume_sends_range_from_file_length() {
    for len in [0u64, 1, 9, 10, 4096, 123456789, u64::MAX] {
        let mut t = Transfer::new(RetryPolicy::unlimited());
        let a = t.step(Event::Probed(ProbeResult::Length(len)));
        let expected = format!("bytes={}-", len).into_bytes();
        assert_eq!(a, Action::Request { offset: len, range: expected });
        assert_eq!(t.phase, Phase::Requesting { offset: len });
        assert_eq!(t.progress().position, len);
    }
}

#[test]
fn missing_file_starts_at_zero() {
    let mut t = Transfer::new(RetryPolicy::unlimited());
    let a = t.step(Event::Probed(ProbeResult::NotFound));
    assert_eq!(a, Action::Request { offset: 0, range: b"bytes=0-".to_vec() });
}

#[test]
fn unreadable_file_fails() {
    let mut t = Transfer::new(RetryPolicy::unlimited());
    let a = t.step(Event::Probed(ProbeResult::Unreadable));
    assert_eq!(a, Action::Fail(DownloadError::Unreadable));
    assert!(t.is_finished());
}

#[test]
fn unsatisfiable_range_completes_without_writing() {
    for offset in [0u64, 5, 1000] {
        let mut t = requesting(offset);
        let a = t.step(Event::Responded { status: 416, content_range: None });
        assert_eq!(a, Action::Finish);
        assert_eq!(t.phase, Phase::Completed);
        assert!(t.is_finished());
        assert!(!t.accepts(&Event::Chunk(vec![1, 2, 3])));
    }
    let mut w = World::new(Some(b"abc".to_vec()), b"abc", 2, vec![]);
    let (last, t) = drive(&mut w, RetryPolicy::unlimited());
    assert_eq!(last, Action::Finish);
    assert_eq!(t.phase, Phase::Completed);
    assert_eq!(w.file, Some(b"abc".to_vec()));
}

#[test]
fn start_mismatch_fails_without_writing() {
    let mut t = requesting(10);
    let a = t.step(Event::Responded {
        status: 206,
        content_range: Some(b"bytes 0-99/100".to_vec()),
    });
    assert_eq!(a, Action::Fail(DownloadError::StartMismatch { requested: 10, declared: 0 }));
    assert_eq!(t.phase, Phase::Failed(DownloadError::StartMismatch { requested: 10, declared: 0 }));
    assert!(!t.accepts(&Event::Opened));
}

#[test]
fn end_mismatch_fails_without_writing() {
    let mut t = requesting(10);
    let a = t.step(Event::Responded {
        status: 206,
        content_range: Some(b"bytes 10-49/100".to_vec()),
    });
    assert_eq!(a, Action::Fail(DownloadError::EndMismatch { end: 49, total: 100 }));
    assert!(t.is_finished());
    assert!(!t.accepts(&Event::Opened));
}

#[test]
fn other_status_fails() {
    let mut t = requesting(0);
    let a = t.step(Event::Responded { status: 200, content_range: None });
    assert_eq!(a, Action::Fail(DownloadError::Status(200)));
    let mut t = requesting(0);
    let a = t.step(Event::Responded { status: 403, content_range: None });
    assert_eq!(a, Action::Fail(DownloadError::Status(403)));
}

#[test]
fn missing_or_bad_content_range_fails() {
    let mut t = requesting(0);
    let a = t.step(Event::Responded { status: 206, content_range: None });
    assert_eq!(a, Action::Fail(DownloadError::MissingContentRange));
    let mut t = requesting(0);
    let a = t.step(Event::Responded { status: 206, content_range: Some(b"items 0-1/2".to_vec()) });
    assert_eq!(a, Action::Fail(DownloadError::ContentRange(RangeError::MissingPrefix)));
    let mut t = requesting(0);
    let a = t.step(Event::Responded { status: 206, content_range: Some(b"bytes 0-x/2".to_vec()) });
    assert_eq!(a, Action::Fail(DownloadError::ContentRange(RangeError::BadFields)));
}

#[test]
fn request_and_open_failures_are_fatal() {
    let mut t = requesting(0);
    assert_eq!(t.step(Event::RequestFailed), Action::Fail(DownloadError::RequestFailed));
    let mut t = requesting(0);
    t.step(Event::Responded { status: 206, content_range: Some(b"bytes 0-9/10".to_vec()) });
    assert_eq!(t.step(Event::OpenFailed), Action::Fail(DownloadError::OpenFailed));
}

#[test]
fn valid_range_sets_progress_and_opens() {
    let mut t = requesting(40);
    let a = t.step(Event::Responded {
        status: 206,
        content_range: Some(b"bytes 40-99/100".to_vec()),
    });
    assert_eq!(a, Action::OpenAppend);
    let p = t.progress();
    assert_eq!((p.position, p.length, p.finished), (40, 100, false));
    assert_eq!(t.step(Event::Opened), Action::ReadChunk);
    assert_eq!(t.step(Event::Chunk(vec![9; 25])), Action::Append(vec![9; 25]));
    assert_eq!(t.progress().position, 40);
    assert_eq!(t.step(Event::Appended), Action::ReadChunk);
    assert_eq!(t.progress().position, 65);
    assert_eq!(t.step(Event::EndOfStream), Action::Finish);
    assert!(t.is_finished());
}

#[test]
fn transient_failure_keeps_streamed_bytes_and_resumes_there() {
    let data = resource(100);
    let mut w = World::new(None, &data, 8, vec![37]);
    let mut t = Transfer::new(RetryPolicy::unlimited());
    let mut action = Action::Probe;
    loop {
        if let Action::Recover { delay_secs } = action {
            assert_eq!(delay_secs, 1);
            assert_eq!(w.file.as_ref().unwrap().len(), 37);
            assert_eq!(w.file.as_ref().unwrap()[..], data[..37]);
            break;
        }
        let e = w.answer(action).unwrap();
        action = t.step(e);
    }
    assert_eq!(t.step(Event::Recovered), Action::Probe);
    let e = w.answer(Action::Probe).unwrap();
    assert_eq!(e, Event::Probed(ProbeResult::Length(37)));
    let a = t.step(e);
    assert_eq!(a, Action::Request { offset: 37, range: b"bytes=37-".to_vec() });
}

#[test]
fn one_failure_still_yields_whole_resource() {
    let data = resource(1000);
    let mut w = World::new(None, &data, 64, vec![300]);
    let (last, t) = drive(&mut w, RetryPolicy::unlimited());
    assert_eq!(last, Action::Finish);
    assert_eq!(t.phase, Phase::Completed);
    assert_eq!(t.attempts, 1);
    assert_eq!(w.file, Some(data.clone()));
    assert_eq!(w.requests, vec![b"bytes=0-".to_vec(), b"bytes=300-".to_vec()]);
    let p = t.progress();
    assert_eq!((p.position, p.length, p.finished), (1000, 1000, true));
}

#[test]
fn many_failures_still_yield_whole_resource() {
    let data = resource(500);
    let mut w = World::new(Some(data[..50].to_vec()), &data, 33, vec![50, 51, 200, 499]);
    let (last, t) = drive(&mut w, RetryPolicy::unlimited());
    assert_eq!(last, Action::Finish);
    assert_eq!(t.attempts, 4);
    assert_eq!(w.file, Some(data));
}

#[test]
fn second_run_on_complete_file_changes_nothing() {
    let data = resource(64);
    let mut w = World::new(None, &data, 16, vec![]);
    let (last, _) = drive(&mut w, RetryPolicy::unlimited());
    assert_eq!(last, Action::Finish);
    let before = w.file.clone();
    w.requests.clear();
    let (last, t) = drive(&mut w, RetryPolicy::unlimited());
    assert_eq!(last, Action::Finish);
    assert_eq!(t.phase, Phase::Completed);
    assert_eq!(w.requests, vec![b"bytes=64-".to_vec()]);
    assert_eq!(w.file, before);
    let (_, _) = drive(&mut w, RetryPolicy::unlimited());
    assert_eq!(w.file, before);
}

#[test]
fn retry_limit_stops_the_transfer() {
    let data = resource(100);
    let policy = RetryPolicy { limit: Some(1), delay_secs: 3 };
    let mut w = World::new(None, &data, 10, vec![20, 40]);
    let (last, t) = drive(&mut w, policy);
    assert_eq!(last, Action::Fail(DownloadError::RetriesExhausted));
    assert_eq!(t.attempts, 2);
    assert_eq!(w.file.unwrap(), data[..40].to_vec());
}

#[test]
fn append_failure_recovers_and_close_failure_is_fatal() {
    let mut t = requesting(0);
    t.step(Event::Responded { status: 206, content_range: Some(b"bytes 0-9/10".to_vec()) });
    t.step(Event::Opened);
    t.step(Event::Chunk(vec![1, 2]));
    let a = t.step(Event::AppendFailed);
    assert_eq!(a, Action::Recover { delay_secs: 1 });
    assert_eq!(t.progress().position, 0);
    assert_eq!(t.step(Event::RecoverFailed), Action::Fail(DownloadError::CloseFailed));
}

#[test]
fn policy_allows_up_to_its_limit() {
    assert!(RetryPolicy::unlimited().allows(u64::MAX));
    let p = RetryPolicy { limit: Some(2), delay_secs: 1 };
    assert!(p.allows(1));
    assert!(p.allows(2));
    assert!(!p.allows(3));
}

#[test]
fn events_out_of_turn_are_not_accepted() {
    let t = Transfer::new(RetryPolicy::unlimited());
    assert!(t.accepts(&Event::Probed(ProbeResult::NotFound)));
    assert!(!t.accepts(&Event::Opened));
    assert!(!t.accepts(&Event::Appended));
    assert!(!t.accepts(&Event::Responded { status: 206, content_range: None }));
}
