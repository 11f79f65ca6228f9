use vstd::prelude::*;
use crate::content_range::{lemma_parse_range_text, range_text, RangeError};
use crate::decimal::{decimal, lemma_numeral_decimal, numeral};
use crate::request::range_request;
use crate::transfer::{
    allows_spec, initial, next, sat_add, with_phase, with_position, ActionView, DownloadError, EventView, Phase,
    ProbeResult, Progress, RetryPolicy, Transfer,
};

verus! {

/// The state and the actions after feeding `es` to the transfer one by one,
/// or `None` where some event comes when the transfer does not wait for it.
pub open spec fn run(s: Transfer, es: Seq<EventView>) -> Option<(Transfer, Seq<ActionView>)>
    decreases es.len(),
{
    if es.len() == 0 {
        Some((s, Seq::empty()))
    } else {
        match next(s, es[0]) {
            None => None,
            Some((s1, a)) => match run(s1, es.drop_first()) {
                None => None,
                Some((s2, acts)) => Some((s2, seq![a] + acts)),
            },
        }
    }
}

/// The bytes that `acts` append to the output file, in order.
pub open spec fn written(acts: Seq<ActionView>) -> Seq<u8>
    decreases acts.len(),
{
    if acts.len() == 0 {
        Seq::empty()
    } else {
        (match acts[0] {
            ActionView::Append(d) => d,
            _ => Seq::empty(),
        }) + written(acts.drop_first())
    }
}

/// The pieces of a body, joined.
pub open spec fn flatten(cs: Seq<Seq<u8>>) -> Seq<u8>
    decreases cs.len(),
{
    if cs.len() == 0 {
        Seq::empty()
    } else {
        cs[0] + flatten(cs.drop_first())
    }
}

/// The events of a body that arrives as `cs`, each piece appended without error.
pub open spec fn stream(cs: Seq<Seq<u8>>) -> Seq<EventView>
    decreases cs.len(),
{
    if cs.len() == 0 {
        Seq::empty()
    } else {
        seq![EventView::Chunk(cs[0]), EventView::Appended] + stream(cs.drop_first())
    }
}

/// One cycle against a server that honours the range: probing finds `probe`,
/// the server answers 206 with the `Content-Range` text `header`, the file
/// opens, the body arrives as `cs`, and then `ending` comes.
pub open spec fn cycle(probe: ProbeResult, header: Seq<u8>, cs: Seq<Seq<u8>>, ending: EventView) -> Seq<
    EventView,
> {
    seq![
        EventView::Probed(probe),
        EventView::Responded { status: 206, content_range: Some(header) },
        EventView::Opened,
    ] + stream(cs) + seq![ending]
}

/// The state while reading the body from `offset` of a resource of `total`
/// bytes, `n` bytes in.
pub open spec fn streaming(s: Transfer, offset: u64, total: u64, n: nat) -> Transfer {
    Transfer {
        phase: Phase::Reading,
        progress: Progress {
            position: (offset + n) as u64,
            length: total,
            finished: s.progress.finished,
        },
        ..s
    }
}

/// Whether the transfer waits for nothing more.
pub open spec fn terminal(t: Transfer) -> bool {
    forall|e: EventView| #[trigger] next(t, e) is None
}

pub proof fn lemma_run_concat(s: Transfer, a: Seq<EventView>, b: Seq<EventView>)
    ensures
        run(s, a + b) == match run(s, a) {
            None => None,
            Some((s1, x)) => match run(s1, b) {
                None => None,
                Some((s2, y)) => Some((s2, x + y)),
            },
        },
    decreases a.len(),
{
    if a.len() == 0 {
        assert(a + b =~= b);
        match run(s, b) {
            None => {},
            Some((s2, y)) => {
                assert(Seq::<ActionView>::empty() + y =~= y);
            },
        }
    } else {
        assert((a + b)[0] == a[0]);
        assert((a + b).drop_first() =~= a.drop_first() + b);
        match next(s, a[0]) {
            None => {},
            Some((s1, x0)) => {
                lemma_run_concat(s1, a.drop_first(), b);
                match run(s1, a.drop_first()) {
                    None => {},
                    Some((s2, x)) => match run(s2, b) {
                        None => {},
                        Some((s3, y)) => {
                            assert(seq![x0] + (x + y) =~= (seq![x0] + x) + y);
                        },
                    },
                }
            },
        }
    }
}

pub proof fn lemma_written_concat(x: Seq<ActionView>, y: Seq<ActionView>)
    ensures
        written(x + y) == written(x) + written(y),
    decreases x.len(),
{
    if x.len() == 0 {
        assert(x + y =~= y);
        assert(Seq::<u8>::empty() + written(y) =~= written(y));
    } else {
        assert((x + y)[0] == x[0]);
        assert((x + y).drop_first() =~= x.drop_first() + y);
        lemma_written_concat(x.drop_first(), y);
        let h = match x[0] {
            ActionView::Append(d) => d,
            _ => Seq::empty(),
        };
        assert(h + (written(x.drop_first()) + written(y)) =~= (h + written(x.drop_first()))
            + written(y));
    }
}

/// Running one event.
pub proof fn lemma_run_one(s: Transfer, e: EventView)
    ensures
        run(s, seq![e]) == match next(s, e) {
            None => None,
            Some((s1, a)) => Some((s1, seq![a])),
        },
{
    let es = seq![e];
    assert(es.drop_first() =~= Seq::<EventView>::empty());
    match next(s, e) {
        None => {},
        Some((s1, a)) => {
            assert(run(s1, Seq::<EventView>::empty()) == Some((s1, Seq::<ActionView>::empty())));
            assert(seq![a] + Seq::<ActionView>::empty() =~= seq![a]);
        },
    }
}

/// The actions that carry no bytes append nothing.
pub proof fn lemma_written_one(a: ActionView)
    ensures
        written(seq![a]) == match a {
            ActionView::Append(d) => d,
            _ => Seq::empty(),
        },
{
    assert(seq![a].drop_first() =~= Seq::<ActionView>::empty());
    let h = match a {
        ActionView::Append(d) => d,
        _ => Seq::empty(),
    };
    assert(seq![a][0] == a);
    assert(written(Seq::<ActionView>::empty()) == Seq::<u8>::empty());
    assert(h + Seq::<u8>::empty() =~= h);
}

/// A body read piece by piece is appended in full and in order, and the
/// progress position moves by its length.
pub proof fn lemma_stream(s: Transfer, cs: Seq<Seq<u8>>)
    requires
        s.phase == Phase::Reading,
        s.progress.position + flatten(cs).len() <= u64::MAX,
    ensures
        run(s, stream(cs)) is Some,
        run(s, stream(cs)).unwrap().0 == with_position(
            s,
            Phase::Reading,
            (s.progress.position + flatten(cs).len()) as u64,
        ),
        written(run(s, stream(cs)).unwrap().1) == flatten(cs),
    decreases cs.len(),
{
    if cs.len() == 0 {
        assert(with_position(s, Phase::Reading, s.progress.position) == s);
    } else {
        let c = cs[0];
        let rest = cs.drop_first();
        let pair = seq![EventView::Chunk(c), EventView::Appended];
        assert(stream(cs) == pair + stream(rest));
        let s1 = next(s, EventView::Chunk(c)).unwrap().0;
        let s2 = with_position(s, Phase::Reading, (s.progress.position + c.len()) as u64);
        lemma_run_one(s, EventView::Chunk(c));
        lemma_run_one(s1, EventView::Appended);
        lemma_run_concat(s, seq![EventView::Chunk(c)], seq![EventView::Appended]);
        assert(seq![EventView::Chunk(c)] + seq![EventView::Appended] =~= pair);
        assert(run(s, pair) == Some(
            (s2, seq![ActionView::Append(c)] + seq![ActionView::ReadChunk]),
        ));
        lemma_stream(s2, rest);
        lemma_run_concat(s, pair, stream(rest));
        let acts = run(s2, stream(rest)).unwrap().1;
        lemma_written_concat(seq![ActionView::Append(c)] + seq![ActionView::ReadChunk], acts);
        lemma_written_concat(seq![ActionView::Append(c)], seq![ActionView::ReadChunk]);
        lemma_written_one(ActionView::Append(c));
        lemma_written_one(ActionView::ReadChunk);
        assert(c + Seq::<u8>::empty() =~= c);
        assert(with_position(s2, Phase::Reading, (s2.progress.position + flatten(rest).len()) as u64)
            == with_position(s, Phase::Reading, (s.progress.position + flatten(cs).len()) as u64));
    }
}

/// Running an event in front of others.
pub proof fn lemma_run_cons(s: Transfer, e: EventView, rest: Seq<EventView>)
    ensures
        run(s, seq![e] + rest) == match next(s, e) {
            None => None,
            Some((s1, a)) => match run(s1, rest) {
                None => None,
                Some((s2, acts)) => Some((s2, seq![a] + acts)),
            },
        },
{
    assert((seq![e] + rest)[0] == e);
    assert((seq![e] + rest).drop_first() =~= rest);
}

/// What an action in front of others appends.
pub proof fn lemma_written_cons(a: ActionView, rest: Seq<ActionView>)
    ensures
        written(seq![a] + rest) == (match a {
            ActionView::Append(d) => d,
            _ => Seq::empty(),
        }) + written(rest),
{
    lemma_written_concat(seq![a], rest);
    lemma_written_one(a);
}

/// One cycle against a server that honours the range: the request asks for
/// the resource from the probed length, the body is appended in full and in
/// order, and the state after `ending` is that of a transfer that has read
/// the whole body.
pub proof fn lemma_cycle(
    s: Transfer,
    probe: ProbeResult,
    offset: u64,
    total: u64,
    cs: Seq<Seq<u8>>,
    ending: EventView,
)
    requires
        s.phase == Phase::Probing,
        probe == ProbeResult::Length(offset) || (probe == ProbeResult::NotFound && offset == 0),
        offset < total,
        offset + flatten(cs).len() <= u64::MAX,
        ending == EventView::EndOfStream || ending == EventView::StreamFailed,
    ensures
        ({
            let r = run(s, cycle(probe, range_text(offset, (total - 1) as u64, total), cs, ending));
            &&& r is Some
            &&& r.unwrap().0 == next(streaming(s, offset, total, flatten(cs).len()), ending).unwrap().0
            &&& written(r.unwrap().1) == flatten(cs)
            &&& r.unwrap().1[0] == ActionView::Request {
                offset,
                range: range_request(offset as nat),
            }
        }),
{
    let h = range_text(offset, (total - 1) as u64, total);
    lemma_parse_range_text(offset, (total - 1) as u64, total);
    let e1 = EventView::Probed(probe);
    let e2 = EventView::Responded { status: 206, content_range: Some(h) };
    let e3 = EventView::Opened;
    let tail = stream(cs) + seq![ending];
    let es = seq![e1] + (seq![e2] + (seq![e3] + tail));
    assert(es =~= cycle(probe, h, cs, ending));
    let s1 = with_position(s, Phase::Requesting { offset }, offset);
    let a1 = ActionView::Request { offset, range: range_request(offset as nat) };
    assert(next(s, e1) == Some((s1, a1)));
    let s2 = Transfer {
        phase: Phase::Opening,
        progress: Progress { position: offset, length: total, finished: s.progress.finished },
        ..s
    };
    assert(next(s1, e2) == Some((s2, ActionView::OpenAppend)));
    let s3 = streaming(s, offset, total, 0);
    assert(next(s2, e3) == Some((s3, ActionView::ReadChunk)));
    let n = flatten(cs).len();
    lemma_stream(s3, cs);
    let (s4, xs) = run(s3, stream(cs)).unwrap();
    assert(s4 == streaming(s, offset, total, n));
    let (s5, ae) = next(s4, ending).unwrap();
    lemma_run_concat(s3, stream(cs), seq![ending]);
    lemma_run_one(s4, ending);
    assert(run(s3, tail) == Some((s5, xs + seq![ae])));
    lemma_run_cons(s2, e3, tail);
    lemma_run_cons(s1, e2, seq![e3] + tail);
    lemma_run_cons(s, e1, seq![e2] + (seq![e3] + tail));
    let acts = seq![a1] + (seq![ActionView::OpenAppend] + (seq![ActionView::ReadChunk] + (xs
        + seq![ae])));
    assert(run(s, es) == Some((s5, acts)));
    lemma_written_concat(xs, seq![ae]);
    lemma_written_one(ae);
    assert(written(xs + seq![ae]) =~= flatten(cs));
    lemma_written_cons(ActionView::ReadChunk, xs + seq![ae]);
    lemma_written_cons(ActionView::OpenAppend, seq![ActionView::ReadChunk] + (xs + seq![ae]));
    lemma_written_cons(
        a1,
        seq![ActionView::OpenAppend] + (seq![ActionView::ReadChunk] + (xs + seq![ae])),
    );
    assert(Seq::<u8>::empty() + flatten(cs) =~= flatten(cs));
}

/// Whatever length `l` the output file has, the next request asks for
/// `bytes=<l>-`, and the number in it reads back as exactly `l`. A missing
/// file is resumed from offset 0.
pub proof fn resume_requests_probed_length(s: Transfer, l: u64)
    requires
        s.phase == Phase::Probing,
    ensures
        next(s, EventView::Probed(ProbeResult::Length(l))) == Some(
            (
                with_position(s, Phase::Requesting { offset: l }, l),
                ActionView::Request { offset: l, range: range_request(l as nat) },
            ),
        ),
        range_request(l as nat) == seq![98u8, 121u8, 116u8, 101u8, 115u8, 61u8] + decimal(l as nat)
            + seq![45u8],
        numeral(decimal(l as nat)) == Some(l),
        next(s, EventView::Probed(ProbeResult::NotFound)) == Some(
            (
                with_position(s, Phase::Requesting { offset: 0 }, 0),
                ActionView::Request { offset: 0, range: range_request(0) },
            ),
        ),
{
    lemma_numeral_decimal(l);
}

/// A 416 answer, whatever the offset and the headers, completes the transfer
/// with nothing appended, and nothing follows it.
pub proof fn unsatisfiable_range_completes(s: Transfer, offset: u64, header: Option<Seq<u8>>)
    requires
        s.phase == (Phase::Requesting { offset }),
    ensures
        ({
            let r = next(s, EventView::Responded { status: 416, content_range: header });
            &&& r is Some
            &&& r.unwrap().0.phase == Phase::Completed
            &&& r.unwrap().0.progress.finished
            &&& r.unwrap().1 == ActionView::Finish
            &&& written(seq![r.unwrap().1]) == Seq::<u8>::empty()
            &&& terminal(r.unwrap().0)
        }),
{
    lemma_written_one(ActionView::Finish);
}

/// A server range that does not start at the requested offset stops the
/// transfer before anything is appended, and nothing follows.
pub proof fn start_mismatch_fails(s: Transfer, offset: u64, start: u64, end: u64, total: u64)
    requires
        s.phase == (Phase::Requesting { offset }),
        start != offset,
    ensures
        ({
            let r = next(
                s,
                EventView::Responded { status: 206, content_range: Some(range_text(start, end, total)) },
            );
            let e = if start <= end && end < total {
                DownloadError::StartMismatch { requested: offset, declared: start }
            } else {
                DownloadError::ContentRange(RangeError::Unordered)
            };
            &&& r is Some
            &&& r.unwrap().0.phase == Phase::Failed(e)
            &&& r.unwrap().1 == ActionView::Fail(e)
            &&& written(seq![r.unwrap().1]) == Seq::<u8>::empty()
            &&& terminal(r.unwrap().0)
        }),
{
    lemma_parse_range_text(start, end, total);
    lemma_written_one(ActionView::Fail(
        if start <= end && end < total {
            DownloadError::StartMismatch { requested: offset, declared: start }
        } else {
            DownloadError::ContentRange(RangeError::Unordered)
        },
    ));
}

/// A server range that starts at the requested offset but does not end at the
/// last byte of the resource stops the transfer before anything is appended,
/// and nothing follows.
pub proof fn end_mismatch_fails(s: Transfer, offset: u64, end: u64, total: u64)
    requires
        s.phase == (Phase::Requesting { offset }),
        end + 1 != total,
    ensures
        ({
            let r = next(
                s,
                EventView::Responded { status: 206, content_range: Some(range_text(offset, end, total)) },
            );
            let e = if offset <= end && end < total {
                DownloadError::EndMismatch { end, total }
            } else {
                DownloadError::ContentRange(RangeError::Unordered)
            };
            &&& r is Some
            &&& r.unwrap().0.phase == Phase::Failed(e)
            &&& r.unwrap().1 == ActionView::Fail(e)
            &&& written(seq![r.unwrap().1]) == Seq::<u8>::empty()
            &&& terminal(r.unwrap().0)
        }),
{
    lemma_parse_range_text(offset, end, total);
    lemma_written_one(ActionView::Fail(
        if offset <= end && end < total {
            DownloadError::EndMismatch { end, total }
        } else {
            DownloadError::ContentRange(RangeError::Unordered)
        },
    ));
}

/// When the body fails after the pieces `cs` were appended to `file`, the file
/// holds exactly `file` followed by those pieces, and once probing reports that
/// length the next request starts there.
pub proof fn transient_failure_resumes_at_written_length(
    s: Transfer,
    file: Seq<u8>,
    total: u64,
    cs: Seq<Seq<u8>>,
)
    requires
        s.phase == Phase::Probing,
        file.len() < total,
        file.len() + flatten(cs).len() <= u64::MAX,
        allows_spec(s.policy, sat_add(s.attempts, 1)),
    ensures
        ({
            let l = file.len() as u64;
            let m = (file.len() + flatten(cs).len()) as u64;
            let es = cycle(
                ProbeResult::Length(l),
                range_text(l, (total - 1) as u64, total),
                cs,
                EventView::StreamFailed,
            ) + seq![EventView::Recovered, EventView::Probed(ProbeResult::Length(m))];
            let r = run(s, es);
            &&& r is Some
            &&& file + written(r.unwrap().1) == file + flatten(cs)
            &&& (file + written(r.unwrap().1)).len() == m
            &&& r.unwrap().0.phase == (Phase::Requesting { offset: m })
            &&& r.unwrap().1.last() == ActionView::Request { offset: m, range: range_request(m as nat) }
        }),
{
    let l = file.len() as u64;
    let n = flatten(cs).len();
    let m = (file.len() + n) as u64;
    let c = cycle(
        ProbeResult::Length(l),
        range_text(l, (total - 1) as u64, total),
        cs,
        EventView::StreamFailed,
    );
    lemma_cycle(s, ProbeResult::Length(l), l, total, cs, EventView::StreamFailed);
    let (t1, xs) = run(s, c).unwrap();
    assert(t1.phase == Phase::Recovering);
    let t2 = with_phase(t1, Phase::Probing);
    let (t3, a3) = next(t2, EventView::Probed(ProbeResult::Length(m))).unwrap();
    lemma_run_one(t2, EventView::Probed(ProbeResult::Length(m)));
    lemma_run_cons(t1, EventView::Recovered, seq![EventView::Probed(ProbeResult::Length(m))]);
    assert(seq![EventView::Recovered] + seq![EventView::Probed(ProbeResult::Length(m))] =~= seq![
        EventView::Recovered,
        EventView::Probed(ProbeResult::Length(m)),
    ]);
    lemma_run_concat(
        s,
        c,
        seq![EventView::Recovered, EventView::Probed(ProbeResult::Length(m))],
    );
    let ys = seq![ActionView::Probe] + seq![a3];
    assert(run(s, c + seq![EventView::Recovered, EventView::Probed(ProbeResult::Length(m))])
        == Some((t3, xs + ys)));
    lemma_written_concat(xs, ys);
    lemma_written_cons(ActionView::Probe, seq![a3]);
    lemma_written_one(a3);
    assert(written(xs + ys) =~= flatten(cs));
    assert((xs + ys).last() == a3);
}

/// A resource of `resource.len()` bytes, fetched into a missing file with one
/// failure after the first `k` bytes, ends complete with the file holding
/// exactly the resource, byte for byte and in order.
pub proof fn one_failure_end_to_end(
    policy: RetryPolicy,
    resource: Seq<u8>,
    k: int,
    first: Seq<Seq<u8>>,
    second: Seq<Seq<u8>>,
)
    requires
        0 <= k < resource.len() <= u64::MAX,
        flatten(first) == resource.take(k),
        flatten(second) == resource.skip(k),
        allows_spec(policy, 1),
    ensures
        ({
            let t = resource.len() as u64;
            let es = cycle(
                ProbeResult::NotFound,
                range_text(0, (t - 1) as u64, t),
                first,
                EventView::StreamFailed,
            ) + seq![EventView::Recovered] + cycle(
                ProbeResult::Length(k as u64),
                range_text(k as u64, (t - 1) as u64, t),
                second,
                EventView::EndOfStream,
            );
            let r = run(initial(policy), es);
            &&& r is Some
            &&& r.unwrap().0.phase == Phase::Completed
            &&& written(r.unwrap().1) == resource
        }),
{
    let t = resource.len() as u64;
    let s0 = initial(policy);
    let c1 = cycle(ProbeResult::NotFound, range_text(0, (t - 1) as u64, t), first, EventView::StreamFailed);
    let c2 = cycle(
        ProbeResult::Length(k as u64),
        range_text(k as u64, (t - 1) as u64, t),
        second,
        EventView::EndOfStream,
    );
    lemma_cycle(s0, ProbeResult::NotFound, 0, t, first, EventView::StreamFailed);
    let (u1, xs) = run(s0, c1).unwrap();
    assert(u1.phase == Phase::Recovering);
    let u2 = with_phase(u1, Phase::Probing);
    lemma_cycle(u2, ProbeResult::Length(k as u64), k as u64, t, second, EventView::EndOfStream);
    let (u3, ys) = run(u2, c2).unwrap();
    lemma_run_cons(u1, EventView::Recovered, c2);
    lemma_run_concat(s0, c1, seq![EventView::Recovered] + c2);
    assert(c1 + seq![EventView::Recovered] + c2 =~= c1 + (seq![EventView::Recovered] + c2));
    assert(run(s0, c1 + seq![EventView::Recovered] + c2) == Some(
        (u3, xs + (seq![ActionView::Probe] + ys)),
    ));
    lemma_written_concat(xs, seq![ActionView::Probe] + ys);
    lemma_written_cons(ActionView::Probe, ys);
    assert(Seq::<u8>::empty() + written(ys) =~= written(ys));
    assert(resource.take(k) + resource.skip(k) =~= resource);
}

/// On a file that already holds the whole resource, each run makes one
/// request, gets 416, and completes; two runs leave the file as it was.
pub proof fn complete_file_is_left_unchanged(
    policy: RetryPolicy,
    file: Seq<u8>,
    first: Option<Seq<u8>>,
    second: Option<Seq<u8>>,
)
    requires
        file.len() <= u64::MAX,
    ensures
        ({
            let l = file.len() as u64;
            let acts = seq![
                ActionView::Request { offset: l, range: range_request(l as nat) },
                ActionView::Finish,
            ];
            let r1 = run(
                initial(policy),
                seq![
                    EventView::Probed(ProbeResult::Length(l)),
                    EventView::Responded { status: 416, content_range: first },
                ],
            );
            let r2 = run(
                initial(policy),
                seq![
                    EventView::Probed(ProbeResult::Length(l)),
                    EventView::Responded { status: 416, content_range: second },
                ],
            );
            &&& r1 is Some && r1.unwrap().0.phase == Phase::Completed && r1.unwrap().1 == acts
            &&& r2 is Some && r2.unwrap().0.phase == Phase::Completed && r2.unwrap().1 == acts
            &&& file + written(r1.unwrap().1) + written(r2.unwrap().1) == file
        }),
{
    let l = file.len() as u64;
    let s0 = initial(policy);
    let req = ActionView::Request { offset: l, range: range_request(l as nat) };
    let s1 = next(s0, EventView::Probed(ProbeResult::Length(l))).unwrap().0;
    let e1 = EventView::Responded { status: 416, content_range: first };
    let e2 = EventView::Responded { status: 416, content_range: second };
    lemma_run_one(s1, e1);
    lemma_run_one(s1, e2);
    lemma_run_cons(s0, EventView::Probed(ProbeResult::Length(l)), seq![e1]);
    lemma_run_cons(s0, EventView::Probed(ProbeResult::Length(l)), seq![e2]);
    assert(seq![EventView::Probed(ProbeResult::Length(l))] + seq![e1] =~= seq![
        EventView::Probed(ProbeResult::Length(l)),
        e1,
    ]);
    assert(seq![EventView::Probed(ProbeResult::Length(l))] + seq![e2] =~= seq![
        EventView::Probed(ProbeResult::Length(l)),
        e2,
    ]);
    assert(seq![req] + seq![ActionView::Finish] =~= seq![req, ActionView::Finish]);
    lemma_written_cons(req, seq![ActionView::Finish]);
    lemma_written_one(ActionView::Finish);
    assert(file + Seq::<u8>::empty() + Seq::<u8>::empty() =~= file);
}

} // verus!
