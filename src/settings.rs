//! SETTINGS: values, ranges and payload.
use vstd::prelude::*;
use crate::error_code::ErrorCode;
use crate::flow::{DEFAULT_INITIAL_WINDOW_SIZE, MAX_WINDOW_SIZE};
use crate::frame::{DEFAULT_MAX_FRAME_SIZE, MAX_MAX_FRAME_SIZE};

verus! {

pub const SETTINGS_HEADER_TABLE_SIZE: u16 = 1;
pub const SETTINGS_ENABLE_PUSH: u16 = 2;
pub const SETTINGS_MAX_CONCURRENT_STREAMS: u16 = 3;
pub const SETTINGS_INITIAL_WINDOW_SIZE: u16 = 4;
pub const SETTINGS_MAX_FRAME_SIZE: u16 = 5;
pub const SETTINGS_MAX_HEADER_LIST_SIZE: u16 = 6;

/// One side's SETTINGS, as last applied.
#[derive(Clone, Copy, Debug, PartialEq, Eq, Structural)]
pub struct Settings {
    pub header_table_size: u32,
    pub enable_push: bool,
    pub max_concurrent_streams: Option<u32>,
    pub initial_window_size: u32,
    pub max_frame_size: u32,
    pub max_header_list_size: Option<u32>,
}

/// Values in range, as every applied setting leaves them.
pub open spec fn settings_wf(s: Settings) -> bool {
    s.initial_window_size <= MAX_WINDOW_SIZE && DEFAULT_MAX_FRAME_SIZE <= s.max_frame_size
        <= MAX_MAX_FRAME_SIZE
}

/// Settings after one `(id, value)` pair: out-of-range values are
/// connection errors (ENABLE_PUSH other than 0 or 1 and MAX_FRAME_SIZE out
/// of 16384..=16777215 are PROTOCOL_ERROR, INITIAL_WINDOW_SIZE past
/// 2^31 - 1 is FLOW_CONTROL_ERROR); unknown ids are ignored.
pub open spec fn apply_setting_spec(s: Settings, id: u16, value: u32) -> Result<Settings, ErrorCode> {
    if id == SETTINGS_HEADER_TABLE_SIZE {
        Ok(Settings { header_table_size: value, ..s })
    } else if id == SETTINGS_ENABLE_PUSH {
        if value > 1 { Err(ErrorCode::ProtocolError) } else { Ok(Settings { enable_push: value == 1, ..s }) }
    } else if id == SETTINGS_MAX_CONCURRENT_STREAMS {
        Ok(Settings { max_concurrent_streams: Some(value), ..s })
    } else if id == SETTINGS_INITIAL_WINDOW_SIZE {
        if value > MAX_WINDOW_SIZE {
            Err(ErrorCode::FlowControlError)
        } else {
            Ok(Settings { initial_window_size: value, ..s })
        }
    } else if id == SETTINGS_MAX_FRAME_SIZE {
        if value < DEFAULT_MAX_FRAME_SIZE || value > MAX_MAX_FRAME_SIZE {
            Err(ErrorCode::ProtocolError)
        } else {
            Ok(Settings { max_frame_size: value, ..s })
        }
    } else if id == SETTINGS_MAX_HEADER_LIST_SIZE {
        Ok(Settings { max_header_list_size: Some(value), ..s })
    } else {
        Ok(s)
    }
}

/// Pairs of a SETTINGS payload: six bytes each, a 16-bit id then a 32-bit
/// value, big-endian.
pub open spec fn settings_pairs(p: Seq<u8>) -> Seq<(u16, u32)> {
    Seq::new(p.len() / 6, |i: int| (
        (p[6 * i] as int * 256 + p[6 * i + 1] as int) as u16,
        (p[6 * i + 2] as int * 16777216 + p[6 * i + 3] as int * 65536 + p[6 * i + 4] as int * 256
            + p[6 * i + 5] as int) as u32,
    ))
}

impl Settings {
    pub open spec fn defaults_spec() -> Settings {
        Settings {
            header_table_size: 4096,
            enable_push: true,
            max_concurrent_streams: None,
            initial_window_size: DEFAULT_INITIAL_WINDOW_SIZE,
            max_frame_size: DEFAULT_MAX_FRAME_SIZE,
            max_header_list_size: None,
        }
    }

    /// RFC 7540 defaults; push as this side advertises it.
    pub fn defaults(enable_push: bool) -> (r: Settings)
        ensures
            settings_wf(r),
            r.enable_push == enable_push,
            r.header_table_size == 4096,
            r.initial_window_size == DEFAULT_INITIAL_WINDOW_SIZE,
            r.max_frame_size == DEFAULT_MAX_FRAME_SIZE,
            r.max_concurrent_streams is None,
            r.max_header_list_size is None,
    {
        Settings {
            header_table_size: 4096,
            enable_push,
            max_concurrent_streams: None,
            initial_window_size: DEFAULT_INITIAL_WINDOW_SIZE,
            max_frame_size: DEFAULT_MAX_FRAME_SIZE,
            max_header_list_size: None,
        }
    }

    /// Applies one setting; see `apply_setting_spec`.
    pub fn apply_setting(&self, id: u16, value: u32) -> (r: Result<Settings, ErrorCode>)
        ensures
            r == apply_setting_spec(*self, id, value),
            settings_wf(*self) && r is Ok ==> settings_wf(r->Ok_0),
    {
        let s = *self;
        if id == SETTINGS_HEADER_TABLE_SIZE {
            Ok(Settings { header_table_size: value, ..s })
        } else if id == SETTINGS_ENABLE_PUSH {
            if value > 1 { Err(ErrorCode::ProtocolError) } else { Ok(Settings { enable_push: value == 1, ..s }) }
        } else if id == SETTINGS_MAX_CONCURRENT_STREAMS {
            Ok(Settings { max_concurrent_streams: Some(value), ..s })
        } else if id == SETTINGS_INITIAL_WINDOW_SIZE {
            if value > MAX_WINDOW_SIZE {
                Err(ErrorCode::FlowControlError)
            } else {
                Ok(Settings { initial_window_size: value, ..s })
            }
        } else if id == SETTINGS_MAX_FRAME_SIZE {
            if value < DEFAULT_MAX_FRAME_SIZE || value > MAX_MAX_FRAME_SIZE {
                Err(ErrorCode::ProtocolError)
            } else {
                Ok(Settings { max_frame_size: value, ..s })
            }
        } else if id == SETTINGS_MAX_HEADER_LIST_SIZE {
            Ok(Settings { max_header_list_size: Some(value), ..s })
        } else {
            Ok(s)
        }
    }
}

/// Reads the pairs of a SETTINGS payload; a length that is not a multiple
/// of six is FRAME_SIZE_ERROR.
pub fn parse_settings_payload(p: &[u8]) -> (r: Result<Vec<(u16, u32)>, ErrorCode>)
    ensures
        p@.len() % 6 != 0 ==> r == Err::<Vec<(u16, u32)>, ErrorCode>(ErrorCode::FrameSizeError),
        p@.len() % 6 == 0 ==> (r matches Ok(v) && v@ == settings_pairs(p@)),
{
    if p.len() % 6 != 0 {
        return Err(ErrorCode::FrameSizeError);
    }
    let plen: usize = p.len();
    let n: usize = plen / 6;
    let mut v: Vec<(u16, u32)> = Vec::new();
    let mut i: usize = 0;
    while i < n
        invariant
            0 <= i <= n,
            n == p@.len() / 6,
            plen == p@.len(),
            p@.len() % 6 == 0,
            v@ =~= settings_pairs(p@).take(i as int),
        decreases n - i,
    {
        assert(6 * i + 5 < p@.len()) by (nonlinear_arith)
            requires i < n, n == p@.len() / 6, p@.len() % 6 == 0;
        assert(6 * (i as int) + 5 < p@.len());
        let k: usize = 6 * i;
        let id: u16 = (p[k] as u16) * 256 + (p[k + 1] as u16);
        let value: u32 = (p[k + 2] as u32) * 16777216 + (p[k + 3] as u32) * 65536 + (p[k + 4] as u32)
            * 256 + (p[k + 5] as u32);
        v.push((id, value));
        i = i + 1;
        assert(v@ =~= settings_pairs(p@).take(i as int));
    }
    assert(settings_pairs(p@).take(n as int) =~= settings_pairs(p@));
    Ok(v)
}

/// Applies the pairs in order; the first refused one stops with its error.
pub fn apply_settings(s: &Settings, pairs: &Vec<(u16, u32)>) -> (r: Result<Settings, ErrorCode>)
    requires
        settings_wf(*s),
    ensures
        r == apply_all_spec(*s, pairs@, pairs@.len() as int),
        r is Ok ==> settings_wf(r->Ok_0),
{
    let mut cur = *s;
    let mut i: usize = 0;
    while i < pairs.len()
        invariant
            0 <= i <= pairs@.len(),
            settings_wf(cur),
            apply_all_spec(*s, pairs@, i as int) == Ok::<Settings, ErrorCode>(cur),
        decreases pairs@.len() - i,
    {
        let (id, value) = pairs[i];
        match cur.apply_setting(id, value) {
            Err(e) => {
                proof { lemma_apply_all_err(*s, pairs@, i as int + 1); }
                return Err(e);
            },
            Ok(next) => { cur = next; },
        }
        i = i + 1;
    }
    Ok(cur)
}

/// The settings after the first `k` pairs, or the first error among them.
pub open spec fn apply_all_spec(s: Settings, pairs: Seq<(u16, u32)>, k: int) -> Result<Settings, ErrorCode>
    decreases k,
{
    if k <= 0 {
        Ok(s)
    } else {
        match apply_all_spec(s, pairs, k - 1) {
            Err(e) => Err(e),
            Ok(c) => apply_setting_spec(c, pairs[k - 1].0, pairs[k - 1].1),
        }
    }
}

proof fn lemma_apply_all_err(s: Settings, pairs: Seq<(u16, u32)>, k: int)
    requires
        1 <= k <= pairs.len(),
        apply_all_spec(s, pairs, k) is Err,
    ensures
        apply_all_spec(s, pairs, pairs.len() as int) == apply_all_spec(s, pairs, k),
    decreases pairs.len() - k,
{
    if k < pairs.len() {
        lemma_apply_all_err(s, pairs, k + 1);
    }
}

} // verus!
