//! Flow-control window arithmetic and DATA frame sizing.
use vstd::prelude::*;
use crate::error_code::ErrorCode;

verus! {

/// Largest flow-control window (2^31 - 1).
pub const MAX_WINDOW_SIZE: u32 = 0x7fff_ffff;
/// INITIAL_WINDOW_SIZE before the peer says otherwise.
pub const DEFAULT_INITIAL_WINDOW_SIZE: u32 = 65535;

/// Window after a WINDOW_UPDATE: an increment of zero, or wider than 31
/// bits, is PROTOCOL_ERROR; a window that would pass 2^31 - 1 is
/// FLOW_CONTROL_ERROR.
pub open spec fn window_update_spec(window: i32, increment: u32) -> Result<i32, ErrorCode> {
    if increment == 0 || increment > MAX_WINDOW_SIZE {
        Err(ErrorCode::ProtocolError)
    } else if window + increment > MAX_WINDOW_SIZE {
        Err(ErrorCode::FlowControlError)
    } else {
        Ok((window + increment) as i32)
    }
}

/// Applies a WINDOW_UPDATE increment to a connection or stream out-window.
pub fn apply_window_update(window: i32, increment: u32) -> (r: Result<i32, ErrorCode>)
    ensures
        r == window_update_spec(window, increment),
{
    if increment == 0 || increment > MAX_WINDOW_SIZE {
        return Err(ErrorCode::ProtocolError);
    }
    let sum: i64 = window as i64 + increment as i64;
    if sum > MAX_WINDOW_SIZE as i64 {
        Err(ErrorCode::FlowControlError)
    } else {
        Ok(sum as i32)
    }
}

/// Stream out-window after INITIAL_WINDOW_SIZE moves from `old_initial` to
/// `new_initial`: shifted by the difference, possibly below zero. A new
/// value past 2^31 - 1, or a window that leaves the 32-bit signed range or
/// passes 2^31 - 1, is FLOW_CONTROL_ERROR.
pub open spec fn initial_window_change_spec(window: i32, old_initial: u32, new_initial: u32) -> Result<
    i32,
    ErrorCode,
> {
    let w = window + new_initial - old_initial;
    if new_initial > MAX_WINDOW_SIZE || w > MAX_WINDOW_SIZE || w < i32::MIN {
        Err(ErrorCode::FlowControlError)
    } else {
        Ok(w as i32)
    }
}

/// Adjusts one stream's out-window to a changed INITIAL_WINDOW_SIZE.
pub fn apply_initial_window_change(window: i32, old_initial: u32, new_initial: u32) -> (r: Result<
    i32,
    ErrorCode,
>)
    ensures
        r == initial_window_change_spec(window, old_initial, new_initial),
{
    let w: i64 = window as i64 + new_initial as i64 - old_initial as i64;
    if new_initial > MAX_WINDOW_SIZE || w > MAX_WINDOW_SIZE as i64 || w < i32::MIN as i64 {
        Err(ErrorCode::FlowControlError)
    } else {
        Ok(w as i32)
    }
}

/// A producer is worth polling only while both windows have credit.
pub open spec fn may_poll_spec(stream_window: int, conn_window: int) -> bool {
    stream_window > 0 && conn_window > 0
}

/// Whether the producer of a stream with these windows may be polled.
pub fn should_poll_producer(stream_window: i32, conn_window: i32) -> (r: bool)
    ensures
        r == may_poll_spec(stream_window as int, conn_window as int),
{
    stream_window > 0 && conn_window > 0
}

pub open spec fn min_int(a: int, b: int) -> int {
    if a <= b { a } else { b }
}

/// Length of the next DATA frame for `pending` queued bytes: the smallest of
/// the bytes, both windows and the peer's MAX_FRAME_SIZE; nothing while
/// either window is exhausted.
pub open spec fn frame_len_spec(pending: int, stream_window: int, conn_window: int, max_frame_size: int) -> int {
    if may_poll_spec(stream_window, conn_window) {
        min_int(min_int(pending, stream_window), min_int(conn_window, max_frame_size))
    } else {
        0
    }
}

/// Length of the next DATA frame, without taking credit.
pub fn data_frame_len(pending: usize, stream_window: i32, conn_window: i32, max_frame_size: u32) -> (r: usize)
    ensures
        r == frame_len_spec(pending as int, stream_window as int, conn_window as int, max_frame_size as int),
{
    if stream_window <= 0 || conn_window <= 0 {
        return 0;
    }
    let mut n: usize = pending;
    if (stream_window as usize) < n {
        n = stream_window as usize;
    }
    if (conn_window as usize) < n {
        n = conn_window as usize;
    }
    if (max_frame_size as usize) < n {
        n = max_frame_size as usize;
    }
    n
}

/// Takes credit for the next DATA frame of a stream: both windows fall by
/// exactly the frame's length.
pub fn take_data_frame(conn_window: &mut i32, stream_window: &mut i32, pending: usize, max_frame_size: u32) -> (r: usize)
    ensures
        r == frame_len_spec(pending as int, *old(stream_window) as int, *old(conn_window) as int,
            max_frame_size as int),
        r <= pending,
        r <= max_frame_size,
        r > 0 ==> r <= *old(conn_window) && r <= *old(stream_window),
        *final(conn_window) == *old(conn_window) - r,
        *final(stream_window) == *old(stream_window) - r,
{
    let n = data_frame_len(pending, *stream_window, *conn_window, max_frame_size);
    *conn_window = *conn_window - n as i32;
    *stream_window = *stream_window - n as i32;
    n
}


/// Flags of a DATA frame of `len` bytes out of `pending`: END_STREAM only
/// on the frame that carries the last byte of an item that ends the stream.
pub fn data_frame_flags(len: usize, pending: usize, end_stream: bool) -> (r: u8)
    ensures
        r == (if end_stream && len == pending { 1u8 } else { 0u8 }),
{
    if end_stream && len == pending { 1 } else { 0 }
}

/// WINDOW_UPDATE increment that returns inbound credit: once a window has
/// fallen below half of its initial size it is topped up to the full size;
/// above that nothing is sent.
pub open spec fn refill_spec(window: int, initial: int) -> int {
    if window < initial / 2 { initial - window } else { 0 }
}

/// Increment to send for an in-window; see `refill_spec`.
pub fn in_window_increment(window: i32, initial: u32) -> (r: u32)
    requires
        window >= 0,
        initial <= MAX_WINDOW_SIZE,
    ensures
        r == refill_spec(window as int, initial as int),
{
    if (window as i64) < (initial / 2) as i64 {
        (initial as i64 - window as i64) as u32
    } else {
        0
    }
}

/// Replays a run of DATA emissions: each request `(stream, pending)` takes
/// a frame of `frame_len_spec` bytes from the stream's and the connection's
/// windows. Yields the final connection window, the final stream windows
/// and the length of each frame sent.
pub open spec fn emit_run(
    conn_window: int,
    windows: Map<int, int>,
    reqs: Seq<(int, int)>,
    max_frame_size: int,
) -> (int, Map<int, int>, Seq<int>)
    decreases reqs.len(),
{
    if reqs.len() == 0 {
        (conn_window, windows, Seq::empty())
    } else {
        let prev = emit_run(conn_window, windows, reqs.drop_last(), max_frame_size);
        let (s, pending) = reqs.last();
        let l = frame_len_spec(pending, prev.1[s], prev.0, max_frame_size);
        (prev.0 - l, prev.1.insert(s, prev.1[s] - l), prev.2.push(l))
    }
}

/// Bytes sent by the first `k` frames of a run, on all streams.
pub open spec fn sent_total(lens: Seq<int>, k: int) -> int
    decreases k,
{
    if k <= 0 { 0 } else { sent_total(lens, k - 1) + lens[k - 1] }
}

/// Bytes sent by the first `k` frames of a run on stream `s`.
pub open spec fn sent_on(reqs: Seq<(int, int)>, lens: Seq<int>, s: int, k: int) -> int
    decreases k,
{
    if k <= 0 {
        0
    } else {
        sent_on(reqs, lens, s, k - 1) + if reqs[k - 1].0 == s { lens[k - 1] } else { 0 }
    }
}

pub open spec fn max0(a: int) -> int {
    if a > 0 { a } else { 0 }
}

proof fn lemma_emit_run_accounts(
    conn_window: int,
    windows: Map<int, int>,
    reqs: Seq<(int, int)>,
    max_frame_size: int,
)
    requires
        max_frame_size >= 0,
        forall|i: int| 0 <= i < reqs.len() ==> windows.dom().contains(#[trigger] reqs[i].0),
        forall|i: int| 0 <= i < reqs.len() ==> #[trigger] reqs[i].1 >= 0,
    ensures
        ({
            let r = emit_run(conn_window, windows, reqs, max_frame_size);
            &&& r.2.len() == reqs.len()
            &&& r.1.dom() == windows.dom()
            &&& r.0 == conn_window - sent_total(r.2, reqs.len() as int)
            &&& r.0 >= min_int(conn_window, 0)
            &&& forall|s: int| windows.dom().contains(s) ==> r.1[s] == windows[s] - sent_on(reqs, r.2, s, reqs.len() as int)
            &&& forall|s: int| windows.dom().contains(s) ==> r.1[s] >= min_int(windows[s], 0)
            &&& forall|i: int| 0 <= i < r.2.len() ==> 0 <= #[trigger] r.2[i] <= max_frame_size
        }),
    decreases reqs.len(),
{
    if reqs.len() > 0 {
        let pre = reqs.drop_last();
        assert forall|i: int| 0 <= i < pre.len() implies windows.dom().contains(#[trigger] pre[i].0) by {
            assert(pre[i] == reqs[i]);
        }
        assert forall|i: int| 0 <= i < pre.len() implies #[trigger] pre[i].1 >= 0 by {
            assert(pre[i] == reqs[i]);
        }
        lemma_emit_run_accounts(conn_window, windows, pre, max_frame_size);
        let prev = emit_run(conn_window, windows, pre, max_frame_size);
        let r = emit_run(conn_window, windows, reqs, max_frame_size);
        let n = reqs.len() as int;
        let (s0, pending) = reqs.last();
        assert(windows.dom().contains(reqs[n - 1].0));
        assert(reqs[n - 1].1 >= 0);
        let l = frame_len_spec(pending, prev.1[s0], prev.0, max_frame_size);
        assert(r.2 == prev.2.push(l));
        assert forall|k: int| 0 <= k <= n - 1 implies sent_total(r.2, k) == sent_total(prev.2, k) by {
            lemma_sent_total_prefix(prev.2, l, k);
        }
        assert(sent_total(r.2, n) == sent_total(prev.2, n - 1) + l);
        assert(reqs.last() == reqs[n - 1]);
        assert(0 <= l);
        assert(r.0 >= min_int(conn_window, 0));
        assert forall|s: int| windows.dom().contains(s) implies r.1[s] == windows[s] - sent_on(reqs, r.2, s, n) by {
            lemma_sent_on_prefix(reqs, pre, prev.2, l, s, n - 1);
            assert(reqs[n - 1].0 == s0);
            assert(r.2[n - 1] == l);
        }
        assert forall|s: int| windows.dom().contains(s) implies r.1[s] >= min_int(windows[s], 0) by {
            if s == s0 {
                assert(r.1[s] == prev.1[s] - l);
            } else {
                assert(r.1[s] == prev.1[s]);
            }
        }
        assert forall|i: int| 0 <= i < r.2.len() implies 0 <= #[trigger] r.2[i] <= max_frame_size by {
            if i < n - 1 {
                assert(r.2[i] == prev.2[i]);
            }
        }
    }
}

proof fn lemma_sent_total_prefix(lens: Seq<int>, l: int, k: int)
    requires
        0 <= k <= lens.len(),
    ensures
        sent_total(lens.push(l), k) == sent_total(lens, k),
    decreases k,
{
    if k > 0 {
        lemma_sent_total_prefix(lens, l, k - 1);
    }
}

proof fn lemma_sent_on_prefix(reqs: Seq<(int, int)>, pre: Seq<(int, int)>, lens: Seq<int>, l: int, s: int, k: int)
    requires
        pre == reqs.drop_last(),
        reqs.len() > 0,
        lens.len() == pre.len(),
        0 <= k <= pre.len(),
    ensures
        sent_on(reqs, lens.push(l), s, k) == sent_on(pre, lens, s, k),
    decreases k,
{
    if k > 0 {
        lemma_sent_on_prefix(reqs, pre, lens, l, s, k - 1);
    }
}

/// Flow control holds over any run of DATA emissions that starts from the
/// given windows and receives no WINDOW_UPDATE: the bytes sent on all
/// streams together never exceed the connection window at the start, the
/// bytes sent on one stream never exceed that stream's window at the start,
/// and no frame is longer than the peer's MAX_FRAME_SIZE.
pub proof fn lemma_flow_control_run(
    conn_window: int,
    windows: Map<int, int>,
    reqs: Seq<(int, int)>,
    max_frame_size: int,
)
    requires
        max_frame_size >= 0,
        forall|i: int| 0 <= i < reqs.len() ==> windows.dom().contains(#[trigger] reqs[i].0),
        forall|i: int| 0 <= i < reqs.len() ==> #[trigger] reqs[i].1 >= 0,
    ensures
        ({
            let lens = emit_run(conn_window, windows, reqs, max_frame_size).2;
            &&& sent_total(lens, reqs.len() as int) <= max0(conn_window)
            &&& forall|s: int| windows.dom().contains(s) ==> sent_on(reqs, lens, s, reqs.len() as int) <= max0(windows[s])
            &&& forall|i: int| 0 <= i < lens.len() ==> #[trigger] lens[i] <= max_frame_size
        }),
{
    lemma_emit_run_accounts(conn_window, windows, reqs, max_frame_size);
}

} // verus!
