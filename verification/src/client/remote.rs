//! Server-facing side of the client: connection configuration, status-code
//! mapping, and the paginated result cursor that decodes the server's wire
//! pages into typed rows.
//!
//! The RPC transport itself is an external collaborator: the cursor is a
//! state machine that decodes buffered pages and says when the next page
//! must be fetched or the server-side query released; the caller performs
//! those calls and feeds the results back.

use vstd::prelude::*;

use crate::bytes::{read_u64_be, spec_i64_of_u64, spec_u64_of_be, u64_to_i64};
use crate::client::perm::{apply_perm_i64, perm_indices, perm_source_of, sort_perm};
use crate::client::{spec_decode, ClientError, CodecError, RowRecord, Value, ValueV};
use crate::protocal::{TSDataType, MULTIPLE_ERROR, NEED_REDIRECTION, SUCCESS_STATUS};
use vstd::string::StringExecFns;

verus! {

/// RPC protocol revision negotiated at session open.
#[derive(Clone, Copy, Debug, Eq, PartialEq, Structural)]
pub enum TSProtocolVersion {
    IotdbServiceProtocolV1,
    IotdbServiceProtocolV2,
    IotdbServiceProtocolV3,
}

/// Connection settings for one session.
#[derive(Clone, Debug)]
pub struct Config {
    pub host: String,
    pub port: i32,
    pub username: String,
    pub password: String,
    pub timeout_ms: Option<i64>,
    pub fetch_size: i32,
    pub timezone: Option<String>,
    pub enable_compression: bool,
    pub protocol_version: TSProtocolVersion,
    pub is_align: bool,
}

impl Default for Config {
    /// Local server, default credentials, a 1000-row fetch page and a
    /// 30-second server-side timeout.
    fn default() -> (r: Self)
        ensures
            r.host@ == "127.0.0.1"@,
            r.port == 6667,
            r.username@ == "root"@,
            r.password@ == "root"@,
            r.timeout_ms == Some(30000i64),
            r.fetch_size == 1000,
            r.timezone matches Some(tz) && tz@ == "Asia/Shanghai"@,
            r.enable_compression == false,
            r.protocol_version == TSProtocolVersion::IotdbServiceProtocolV3,
            r.is_align == true,
    {
        Self {
            host: "127.0.0.1".to_owned(),
            port: 6667,
            username: "root".to_owned(),
            password: "root".to_owned(),
            timeout_ms: Some(30000),
            fetch_size: 1000,
            timezone: Some("Asia/Shanghai".to_owned()),
            enable_compression: false,
            protocol_version: TSProtocolVersion::IotdbServiceProtocolV3,
            is_align: true,
        }
    }
}

/// One per-item entry inside an aggregate status.
#[derive(Clone, Debug)]
pub struct SubStatus {
    pub code: i32,
    pub message: Option<String>,
}

/// Status answer of one server operation: a code, an optional message,
/// and, for aggregate statuses, per-item sub-statuses.
#[derive(Clone, Debug)]
pub struct TSStatus {
    pub code: i32,
    pub message: Option<String>,
    pub sub_status: Option<Vec<SubStatus>>,
}

/// The sub-statuses carried by a status, or none.
pub open spec fn spec_subs(status: TSStatus) -> Seq<SubStatus> {
    match status.sub_status {
        Some(v) => v@,
        None => Seq::empty(),
    }
}

/// The slice a failing sub-status contributes to the aggregate message:
/// its message followed by a semicolon; successes, redirects and silent
/// failures contribute nothing.
pub open spec fn spec_sub_message(s: SubStatus) -> Seq<char> {
    if s.code == SUCCESS_STATUS || s.code == NEED_REDIRECTION {
        Seq::empty()
    } else {
        match s.message {
            Some(m) => m@ + seq![';'],
            None => Seq::empty(),
        }
    }
}

/// The aggregate message of a `MULTIPLE_ERROR` status: the concatenated
/// messages of its failing sub-statuses, in order.
pub open spec fn spec_multi_message(subs: Seq<SubStatus>) -> Seq<char>
    decreases subs.len(),
{
    if subs.len() == 0 {
        Seq::empty()
    } else {
        spec_multi_message(subs.drop_last()) + spec_sub_message(subs.last())
    }
}

/// Whether a status counts as success: plain success, a redirect (accepted
/// but not followed), or an aggregate whose failing items carry no message.
pub open spec fn spec_status_ok(status: TSStatus) -> bool {
    ||| status.code == SUCCESS_STATUS
    ||| status.code == NEED_REDIRECTION
    ||| (status.code == MULTIPLE_ERROR && spec_multi_message(spec_subs(status)).len() == 0)
}

/// The message of the error a failing status maps to.
pub open spec fn spec_status_message(status: TSStatus) -> Seq<char> {
    if status.code == MULTIPLE_ERROR {
        spec_multi_message(spec_subs(status))
    } else {
        match status.message {
            Some(m) => m@,
            None => Seq::empty(),
        }
    }
}

/// Map a server status to the operation's outcome: success and redirect
/// codes pass, an aggregate status passes when no failing sub-item left a
/// message, and anything else surfaces as a protocol error carrying the
/// code and the (possibly aggregated) message.
pub fn check_status(status: TSStatus) -> (r: Result<(), ClientError>)
    ensures
        match r {
            Ok(()) => spec_status_ok(status),
            Err(ClientError::ProtocolStatus { code, message }) => {
                &&& !spec_status_ok(status)
                &&& code == status.code
                &&& message@ == spec_status_message(status)
            },
            Err(_) => false,
        },
{
    if status.code == SUCCESS_STATUS || status.code == NEED_REDIRECTION {
        return Ok(());
    }
    if status.code == MULTIPLE_ERROR {
        let mut messages = String::new();
        match &status.sub_status {
            Some(subs) => {
                let n = subs.len();
                let mut i: usize = 0;
                while i < n
                    invariant
                        i <= n,
                        n == subs@.len(),
                        subs@ == spec_subs(status),
                        messages@ == spec_multi_message(subs@.take(i as int)),
                    decreases n - i,
                {
                    let s = &subs[i];
                    if s.code != SUCCESS_STATUS && s.code != NEED_REDIRECTION {
                        match &s.message {
                            Some(m) => {
                                messages.append(m.as_str());
                                messages.append(";");
                                proof {
                                    reveal_strlit(";");
                                    assert(messages@ =~= spec_multi_message(subs@.take(i as int))
                                        + spec_sub_message(subs@[i as int]));
                                }
                            },
                            None => {},
                        }
                    }
                    proof {
                        assert(subs@.take(i + 1).drop_last() =~= subs@.take(i as int));
                        assert(subs@.take(i + 1).last() == subs@[i as int]);
                        assert(messages@ =~= spec_multi_message(subs@.take(i + 1)));
                    }
                    i = i + 1;
                }
                proof {
                    assert(subs@.take(n as int) =~= subs@);
                }
            },
            None => {
                proof {
                    assert(spec_multi_message(spec_subs(status)).len() == 0);
                }
            },
        }
        if !messages.as_str().is_empty() {
            return Err(ClientError::ProtocolStatus { code: status.code, message: messages });
        } else {
            return Ok(());
        }
    }
    let message = match &status.message {
        Some(m) => m.clone(),
        None => String::new(),
    };
    Err(ClientError::ProtocolStatus { code: status.code, message })
}

/// The one error every operation on a closed session reports.
pub fn fire_closed_error() -> (r: Result<(), ClientError>)
    ensures
        r == Err::<(), ClientError>(ClientError::SessionClosed),
{
    Err(ClientError::SessionClosed)
}

/// The views of one record's measurement names.
pub open spec fn spec_string_row_view(row: Seq<String>) -> Seq<Seq<char>> {
    row.map_values(|s: String| s@)
}

/// The deep views of rows of measurement names.
pub open spec fn spec_string_rows_view(rows: Seq<Vec<String>>) -> Seq<Seq<Seq<char>>> {
    rows.map_values(|row: Vec<String>| spec_string_row_view(row@))
}

/// The deep views of rows of values.
pub open spec fn spec_value_rows_view(rows: Seq<Vec<Value>>) -> Seq<Seq<ValueV>> {
    rows.map_values(|row: Vec<Value>| crate::client::spec_col_view(row@))
}

/// `perm` reorders the records `(pre_ts, pre_ms, pre_vs)` into
/// `(post_ts, post_ms, post_vs)`: one bijection on the record indices,
/// applied alike to the timestamps, the measurement rows and the value
/// rows, so each record stays whole.
pub open spec fn spec_is_records_permutation(
    perm: Seq<int>,
    pre_ts: Seq<i64>,
    pre_ms: Seq<Seq<Seq<char>>>,
    pre_vs: Seq<Seq<ValueV>>,
    post_ts: Seq<i64>,
    post_ms: Seq<Seq<Seq<char>>>,
    post_vs: Seq<Seq<ValueV>>,
) -> bool {
    &&& perm.len() == pre_ts.len()
    &&& forall|k: int| 0 <= k < perm.len() ==> 0 <= #[trigger] perm[k] < perm.len()
    &&& forall|k1: int, k2: int|
        #![trigger perm[k1], perm[k2]]
        0 <= k1 < k2 < perm.len() ==> perm[k1] != perm[k2]
    &&& post_ts.len() == perm.len()
    &&& post_ms.len() == perm.len()
    &&& post_vs.len() == perm.len()
    &&& forall|k: int| 0 <= k < perm.len() ==> (#[trigger] post_ts[k]) == pre_ts[perm[k]]
    &&& forall|k: int| 0 <= k < perm.len() ==> (#[trigger] post_ms[k]) == pre_ms[perm[k]]
    &&& forall|k: int| 0 <= k < perm.len() ==> (#[trigger] post_vs[k]) == pre_vs[perm[k]]
}

/// The records `(post_ts, post_ms, post_vs)` are `(pre_ts, pre_ms,
/// pre_vs)` reordered by one stable, timestamp-sorting permutation.
pub open spec fn spec_records_sorted_from(
    pre_ts: Seq<i64>,
    pre_ms: Seq<Seq<Seq<char>>>,
    pre_vs: Seq<Seq<ValueV>>,
    post_ts: Seq<i64>,
    post_ms: Seq<Seq<Seq<char>>>,
    post_vs: Seq<Seq<ValueV>>,
) -> bool {
    exists|perm: Seq<int>|
        {
            &&& #[trigger] spec_is_records_permutation(
                perm,
                pre_ts,
                pre_ms,
                pre_vs,
                post_ts,
                post_ms,
                post_vs,
            )
            &&& crate::client::spec_stable_for(perm, pre_ts)
        }
}

/// A copy of one record's measurement names.
fn duplicate_string_row(row: &Vec<String>) -> (r: Vec<String>)
    ensures
        spec_string_row_view(r@) == spec_string_row_view(row@),
{
    let n = row.len();
    let mut r: Vec<String> = Vec::new();
    let mut i: usize = 0;
    while i < n
        invariant
            i <= n,
            n == row@.len(),
            r@.len() == i,
            forall|j: int| 0 <= j < i ==> (#[trigger] r@[j]@) == row@[j]@,
        decreases n - i,
    {
        r.push(row[i].clone());
        i = i + 1;
    }
    proof {
        assert(spec_string_row_view(r@) =~= spec_string_row_view(row@));
    }
    r
}

/// A copy of one record's values.
fn duplicate_value_row(row: &Vec<Value>) -> (r: Vec<Value>)
    ensures
        crate::client::spec_col_view(r@) == crate::client::spec_col_view(row@),
{
    let n = row.len();
    let mut r: Vec<Value> = Vec::new();
    let mut i: usize = 0;
    while i < n
        invariant
            i <= n,
            n == row@.len(),
            r@.len() == i,
            forall|j: int| 0 <= j < i ==> (#[trigger] r@[j]@) == row@[j]@,
        decreases n - i,
    {
        r.push(row[i].duplicate());
        i = i + 1;
    }
    proof {
        assert(crate::client::spec_col_view(r@) =~= crate::client::spec_col_view(row@));
    }
    r
}

/// Order one device's records by non-decreasing timestamp before a bulk
/// record write, stably: one sorting permutation, computed from the
/// timestamps, is applied alike to the timestamps, the per-record
/// measurement names and the per-record values. Rejects record lists
/// whose lengths disagree.
#[verifier::rlimit(60)]
#[verifier::spinoff_prover]
pub fn sort_records_of_one_device(
    timestamps: &Vec<i64>,
    measurements: &Vec<Vec<String>>,
    values: &Vec<Vec<Value>>,
) -> (r: Result<(Vec<i64>, Vec<Vec<String>>, Vec<Vec<Value>>), ClientError>)
    ensures
        r is Ok ==> measurements@.len() == timestamps@.len() && values@.len()
            == timestamps@.len(),
        r matches Ok((ts, ms, vs)) ==> crate::client::spec_non_decreasing(ts@)
            && spec_records_sorted_from(
            timestamps@,
            spec_string_rows_view(measurements@),
            spec_value_rows_view(values@),
            ts@,
            spec_string_rows_view(ms@),
            spec_value_rows_view(vs@),
        ),
        r is Err ==> r == Err::<(Vec<i64>, Vec<Vec<String>>, Vec<Vec<Value>>), ClientError>(
            ClientError::SchemaMismatch,
        ) && !(measurements@.len() == timestamps@.len() && values@.len() == timestamps@.len()),
{
    let n = timestamps.len();
    if measurements.len() != n || values.len() != n {
        return Err(ClientError::SchemaMismatch);
    }
    let p = sort_perm(timestamps);
    let ghost idx = perm_indices(p);
    let ts = apply_perm_i64(&p, timestamps);
    let mut ms: Vec<Vec<String>> = Vec::new();
    let mut vs: Vec<Vec<Value>> = Vec::new();
    let mut k: usize = 0;
    while k < n
        invariant
            k <= n,
            n == timestamps@.len(),
            n == measurements@.len(),
            n == values@.len(),
            idx == perm_indices(p),
            idx.len() == n,
            forall|j: int| 0 <= j < n ==> (#[trigger] idx[j]) < n,
            ms@.len() == k,
            vs@.len() == k,
            forall|j: int|
                0 <= j < k ==> (#[trigger] spec_string_rows_view(ms@)[j])
                    == spec_string_rows_view(measurements@)[idx[j] as int],
            forall|j: int|
                0 <= j < k ==> (#[trigger] spec_value_rows_view(vs@)[j]) == spec_value_rows_view(
                    values@,
                )[idx[j] as int],
        decreases n - k,
    {
        let src = perm_source_of(&p, k);
        let ghost ms_prev = ms@;
        let ghost vs_prev = vs@;
        ms.push(duplicate_string_row(&measurements[src]));
        vs.push(duplicate_value_row(&values[src]));
        proof {
            assert forall|j: int| 0 <= j < k + 1 implies (#[trigger] spec_string_rows_view(ms@)[j])
                == spec_string_rows_view(measurements@)[idx[j] as int] by {
                assert(spec_string_rows_view(ms@)[j] == spec_string_row_view(ms@[j]@));
                assert(spec_string_rows_view(measurements@)[idx[j] as int]
                    == spec_string_row_view(measurements@[idx[j] as int]@));
                if j < k {
                    assert(ms@[j] == ms_prev[j]);
                    assert(spec_string_rows_view(ms_prev)[j] == spec_string_row_view(
                        ms_prev[j]@,
                    ));
                } else {
                    assert(spec_string_row_view(ms@[j]@) == spec_string_row_view(
                        measurements@[src as int]@,
                    ));
                }
            }
            assert forall|j: int| 0 <= j < k + 1 implies (#[trigger] spec_value_rows_view(vs@)[j])
                == spec_value_rows_view(values@)[idx[j] as int] by {
                assert(spec_value_rows_view(vs@)[j] == crate::client::spec_col_view(vs@[j]@));
                assert(spec_value_rows_view(values@)[idx[j] as int]
                    == crate::client::spec_col_view(values@[idx[j] as int]@));
                if j < k {
                    assert(vs@[j] == vs_prev[j]);
                    assert(spec_value_rows_view(vs_prev)[j] == crate::client::spec_col_view(
                        vs_prev[j]@,
                    ));
                } else {
                    assert(crate::client::spec_col_view(vs@[j]@) == crate::client::spec_col_view(
                        values@[src as int]@,
                    ));
                }
            }
        }
        k = k + 1;
    }
    proof {
        let perm_int = Seq::new(idx.len(), |j: int| idx[j] as int);
        assert forall|j: int| 0 <= j < n implies #[trigger] ts@[j] == timestamps@[perm_int[j]] by {
            assert(ts@[j] == timestamps@[idx[j] as int]);
        }
        assert(spec_is_records_permutation(
            perm_int,
            timestamps@,
            spec_string_rows_view(measurements@),
            spec_value_rows_view(values@),
            ts@,
            spec_string_rows_view(ms@),
            spec_value_rows_view(vs@),
        ));
        assert(crate::client::spec_stable_for(perm_int, timestamps@));
        assert(crate::client::spec_non_decreasing(ts@)) by {
            assert forall|k1: int, k2: int| 0 <= k1 < k2 < ts@.len() implies ts@[k1] <= ts@[k2] by {
                assert(ts@[k1] == timestamps@[idx[k1] as int]);
                assert(ts@[k2] == timestamps@[idx[k2] as int]);
            }
        }
        assert(spec_records_sorted_from(
            timestamps@,
            spec_string_rows_view(measurements@),
            spec_value_rows_view(values@),
            ts@,
            spec_string_rows_view(ms@),
            spec_value_rows_view(vs@),
        ));
    }
    Ok((ts, ms, vs))
}

/// One wire page of a query result, as a fetch delivers it: the packed
/// timestamp bytes, one tag-stripped value buffer per wire column, and one
/// null bitmap per wire column.
#[derive(Clone, Debug)]
pub struct QueryPage {
    pub time: Vec<u8>,
    pub value_list: Vec<Vec<u8>>,
    pub bitmap_list: Vec<Vec<u8>>,
}

/// What the cursor asks of its caller after each step: a decoded row, a
/// fetch of the next page, or nothing because the cursor is finished.
#[derive(Clone, Debug)]
pub enum CursorStep {
    Row(RowRecord),
    NeedFetch,
    End,
}

/// Mathematical model of the cursor.
#[verifier::ext_equal]
pub ghost struct RpcDataSetV {
    pub column_names: Seq<Seq<char>>,
    pub data_types: Seq<TSDataType>,
    pub display_to_wire: Seq<usize>,
    pub wire_to_display: Seq<usize>,
    pub is_ignore_time_stamp: Option<bool>,
    pub time: Seq<u8>,
    pub value_list: Seq<Seq<u8>>,
    pub bitmap_list: Seq<Seq<u8>>,
    pub time_pos: int,
    pub value_pos: Seq<int>,
    pub bitmap_pos: Seq<int>,
    pub bitmaps: Seq<u8>,
    pub row_index: int,
    pub timestamp: i64,
    pub closed: bool,
    pub failed: bool,
}

/// Forward-only cursor over one server-side query result. It owns the
/// currently buffered page, decodes it row by row — null bitmaps, type
/// re-tagging, display reordering — and reports when the caller must fetch
/// the next page or release the statement.
pub struct RpcDataSet {
    column_names: Vec<String>,
    data_types: Vec<TSDataType>,
    display_to_wire: Vec<usize>,
    wire_to_display: Vec<usize>,
    is_ignore_time_stamp: Option<bool>,
    page: QueryPage,
    time_pos: usize,
    value_pos: Vec<usize>,
    bitmap_pos: Vec<usize>,
    bitmaps: Vec<u8>,
    row_index: usize,
    timestamp: i64,
    closed: bool,
    failed: bool,
}

impl View for RpcDataSet {
    type V = RpcDataSetV;

    closed spec fn view(&self) -> RpcDataSetV {
        RpcDataSetV {
            column_names: self.column_names@.map_values(|s: String| s@),
            data_types: self.data_types@,
            display_to_wire: self.display_to_wire@,
            wire_to_display: self.wire_to_display@,
            is_ignore_time_stamp: self.is_ignore_time_stamp,
            time: self.page.time@,
            value_list: self.page.value_list@.map_values(|b: Vec<u8>| b@),
            bitmap_list: self.page.bitmap_list@.map_values(|b: Vec<u8>| b@),
            time_pos: self.time_pos as int,
            value_pos: self.value_pos@.map_values(|p: usize| p as int),
            bitmap_pos: self.bitmap_pos@.map_values(|p: usize| p as int),
            bitmaps: self.bitmaps@,
            row_index: self.row_index as int,
            timestamp: self.timestamp,
            closed: self.closed,
            failed: self.failed,
        }
    }
}

/// How many wire columns the cursor decodes.
pub open spec fn spec_ncols(v: RpcDataSetV) -> int {
    v.value_list.len() as int
}

/// Whether timestamps are suppressed for this result.
pub open spec fn spec_ignore_timestamp(v: RpcDataSetV) -> bool {
    match v.is_ignore_time_stamp {
        Some(b) => b,
        None => false,
    }
}

/// Cursor well-formedness: the metadata arrays and per-column state all
/// agree on the column count, the two index maps are mutually inverse,
/// and every read position lies within its buffer.
pub open spec fn spec_cursor_wf(v: RpcDataSetV) -> bool {
    let n = spec_ncols(v);
    &&& v.column_names.len() == n
    &&& v.data_types.len() == n
    &&& v.display_to_wire.len() == n
    &&& v.wire_to_display.len() == n
    &&& v.bitmap_list.len() == n
    &&& v.value_pos.len() == n
    &&& v.bitmap_pos.len() == n
    &&& v.bitmaps.len() == n
    &&& forall|d: int| 0 <= d < n ==> (#[trigger] v.display_to_wire[d]) < n
    &&& forall|w: int| 0 <= w < n ==> (#[trigger] v.wire_to_display[w]) < n
    &&& forall|d: int|
        0 <= d < n ==> (#[trigger] v.wire_to_display[v.display_to_wire[d] as int]) as int == d
    &&& forall|w: int|
        0 <= w < n ==> (#[trigger] v.display_to_wire[v.wire_to_display[w] as int]) as int == w
    &&& 0 <= v.time_pos <= v.time.len()
    &&& forall|w: int| 0 <= w < n ==> 0 <= #[trigger] v.value_pos[w] <= v.value_list[w].len()
    &&& forall|w: int| 0 <= w < n ==> 0 <= #[trigger] v.bitmap_pos[w] <= v.bitmap_list[w].len()
    &&& 0 <= v.row_index
    &&& 8 * v.row_index <= v.time_pos
}

/// A fresh bitmap byte is due every eighth row.
pub open spec fn spec_need_fresh(v: RpcDataSetV) -> bool {
    v.row_index % 8 == 0
}

/// The bitmap byte governing the current row of wire column `w`.
pub open spec fn spec_cur_bitmap(v: RpcDataSetV, w: int) -> u8 {
    if spec_need_fresh(v) {
        v.bitmap_list[w][v.bitmap_pos[w]]
    } else {
        v.bitmaps[w]
    }
}

/// Whether the bitmap byte needed for the current row of wire column `w`
/// is present in the buffered page.
pub open spec fn spec_bitmap_avail(v: RpcDataSetV, w: int) -> bool {
    spec_need_fresh(v) ==> v.bitmap_pos[w] < v.bitmap_list[w].len()
}

/// The most-significant-bit-first mask selecting the current row's bit.
pub open spec fn spec_row_mask(v: RpcDataSetV) -> u8 {
    0x80u8 >> ((v.row_index % 8) as u8)
}

/// Bit clear in the bitmap byte means the value is absent for this row.
pub open spec fn spec_cell_null(v: RpcDataSetV, w: int) -> bool {
    spec_row_mask(v) & spec_cur_bitmap(v, w) == 0
}

/// The declared type of wire column `w`: the data-type list is in display
/// order, so it is read through the wire-to-display map.
pub open spec fn spec_wire_type(v: RpcDataSetV, w: int) -> TSDataType {
    v.data_types[v.wire_to_display[w] as int]
}

/// The outcome of decoding the current row's cell of wire column `w`: the
/// cell's value and the column's new read position. A clear bitmap bit
/// yields `Null` and consumes nothing; a set bit decodes one value of the
/// column's declared type from its value buffer; a missing bitmap byte or
/// a short value buffer is a truncation error.
pub open spec fn spec_cell_result(v: RpcDataSetV, w: int) -> Result<(ValueV, int), CodecError> {
    if !spec_bitmap_avail(v, w) {
        Err(CodecError::Truncated)
    } else if spec_cell_null(v, w) {
        Ok((ValueV::Null, v.value_pos[w]))
    } else {
        match spec_decode(spec_retagged_at(v, w)) {
            Ok((val, used)) => Ok((val, v.value_pos[w] + used - 1)),
            Err(e) => Err(e),
        }
    }
}

/// The tagged byte stream that decoding wire column `w` conceptually
/// reads: the column's tag put back in front of its unread bytes.
pub open spec fn spec_retagged_at(v: RpcDataSetV, w: int) -> Seq<u8> {
    crate::client::spec_retagged(spec_wire_type(v, w), v.value_list[w], v.value_pos[w])
}

/// The cell value of wire column `w` for the current row, when decoding
/// succeeds.
pub open spec fn spec_cell_value(v: RpcDataSetV, w: int) -> ValueV {
    match spec_cell_result(v, w) {
        Ok((val, _)) => val,
        Err(_) => ValueV::Null,
    }
}

/// The column's read position after the current row, when decoding
/// succeeds.
pub open spec fn spec_cell_newpos(v: RpcDataSetV, w: int) -> int {
    match spec_cell_result(v, w) {
        Ok((_, p)) => p,
        Err(_) => v.value_pos[w],
    }
}

/// Whether the buffered page holds a complete, decodable current row.
pub open spec fn spec_row_ok(v: RpcDataSetV) -> bool {
    &&& v.time_pos + 8 <= v.time.len()
    &&& forall|w: int| 0 <= w < spec_ncols(v) ==> (#[trigger] spec_cell_result(v, w)) is Ok
}

/// The current row's timestamp: the next eight time-buffer bytes read as
/// a big-endian signed integer.
pub open spec fn spec_row_timestamp(v: RpcDataSetV) -> i64 {
    spec_i64_of_u64(spec_u64_of_be(v.time.subrange(v.time_pos, v.time_pos + 8)))
}

/// The cursor state after decoding the current row: the time position
/// moves past the row's eight timestamp bytes, every column's read
/// position moves past what its cell consumed, the bitmap bytes pulled
/// for this row are latched, and the row index advances.
pub open spec fn spec_row_step(v: RpcDataSetV) -> RpcDataSetV {
    RpcDataSetV {
        time_pos: v.time_pos + 8,
        value_pos: Seq::new(v.value_pos.len(), |w: int| spec_cell_newpos(v, w)),
        bitmap_pos: Seq::new(
            v.bitmap_pos.len(),
            |w: int| v.bitmap_pos[w] + if spec_need_fresh(v) { 1int } else { 0int },
        ),
        bitmaps: Seq::new(v.bitmaps.len(), |w: int| spec_cur_bitmap(v, w)),
        row_index: v.row_index + 1,
        timestamp: spec_row_timestamp(v),
        ..v
    }
}

/// The display-ordered values of the current row: the cell of each display
/// position's wire column, preceded by the timestamp as an `Int64` unless
/// timestamps are suppressed.
pub open spec fn spec_row_values_ok(v: RpcDataSetV, rec: RowRecord) -> bool {
    let off: int = if spec_ignore_timestamp(v) { 0 } else { 1 };
    &&& rec.timestamp == spec_row_timestamp(v)
    &&& rec.values@.len() == off + spec_ncols(v)
    &&& (!spec_ignore_timestamp(v) ==> rec.values@[0]@ == ValueV::Int64(spec_row_timestamp(v)))
    &&& forall|d: int|
        0 <= d < spec_ncols(v) ==> (#[trigger] rec.values@[off + d]@) == spec_cell_value(
            v,
            v.display_to_wire[d] as int,
        )
}

/// The metadata a cursor can be built from is consistent: one data type,
/// one wire position, one value buffer and one bitmap per column, and the
/// display-to-wire map a bijection on the column positions.
/// Some display position maps to wire position `w`.
pub open spec fn spec_in_image(d2w: Seq<usize>, w: int) -> bool {
    exists|d: int| 0 <= d < d2w.len() && (#[trigger] d2w[d]) as int == w
}

pub open spec fn spec_valid_layout(
    names: Seq<Seq<char>>,
    types: Seq<TSDataType>,
    d2w: Seq<usize>,
    value_list: Seq<Seq<u8>>,
    bitmap_list: Seq<Seq<u8>>,
) -> bool {
    let n = names.len() as int;
    &&& types.len() == n
    &&& d2w.len() == n
    &&& value_list.len() == n
    &&& bitmap_list.len() == n
    &&& forall|d: int| 0 <= d < n ==> (#[trigger] d2w[d]) < n
    &&& forall|d1: int, d2: int|
        #![trigger d2w[d1], d2w[d2]]
        0 <= d1 < d2 < n ==> d2w[d1] != d2w[d2]
    &&& forall|w: int| 0 <= w < n ==> #[trigger] spec_in_image(d2w, w)
}

impl RpcDataSet {
    /// Build a cursor over a fresh query result: the display-ordered
    /// column names and data types, the display-to-wire position map, the
    /// timestamp-suppression flag of the response, and the first page,
    /// which arrives with the query's initial response. Inconsistent
    /// metadata is rejected as a schema mismatch.
    pub fn new(
        column_names: Vec<String>,
        data_types: Vec<TSDataType>,
        display_to_wire: Vec<usize>,
        is_ignore_time_stamp: Option<bool>,
        first_page: QueryPage,
    ) -> (r: Result<RpcDataSet, ClientError>)
        ensures
            match r {
                Ok(ds) => {
                    &&& spec_valid_layout(
                        column_names@.map_values(|s: String| s@),
                        data_types@,
                        display_to_wire@,
                        first_page.value_list@.map_values(|b: Vec<u8>| b@),
                        first_page.bitmap_list@.map_values(|b: Vec<u8>| b@),
                    )
                    &&& spec_cursor_wf(ds@)
                    &&& ds@.column_names == column_names@.map_values(|s: String| s@)
                    &&& ds@.data_types == data_types@
                    &&& ds@.display_to_wire == display_to_wire@
                    &&& ds@.is_ignore_time_stamp == is_ignore_time_stamp
                    &&& ds@.time == first_page.time@
                    &&& ds@.value_list == first_page.value_list@.map_values(|b: Vec<u8>| b@)
                    &&& ds@.bitmap_list == first_page.bitmap_list@.map_values(|b: Vec<u8>| b@)
                    &&& ds@.time_pos == 0
                    &&& forall|w: int| 0 <= w < spec_ncols(ds@) ==> (#[trigger] ds@.value_pos[w]) == 0
                    &&& forall|w: int|
                        0 <= w < spec_ncols(ds@) ==> (#[trigger] ds@.bitmap_pos[w]) == 0
                    &&& ds@.row_index == 0
                    &&& ds@.timestamp == -1
                    &&& !ds@.closed
                    &&& !ds@.failed
                },
                Err(ClientError::SchemaMismatch) => !spec_valid_layout(
                    column_names@.map_values(|s: String| s@),
                    data_types@,
                    display_to_wire@,
                    first_page.value_list@.map_values(|b: Vec<u8>| b@),
                    first_page.bitmap_list@.map_values(|b: Vec<u8>| b@),
                ),
                Err(_) => false,
            },
    {
        let n = column_names.len();
        if data_types.len() != n || display_to_wire.len() != n || first_page.value_list.len() != n
            || first_page.bitmap_list.len() != n {
            return Err(ClientError::SchemaMismatch);
        }
        // Invert the display-to-wire map, position by position; `n` is the
        // not-yet-assigned marker.
        let mut wire_to_display: Vec<usize> = Vec::new();
        let mut i: usize = 0;
        while i < n
            invariant
                i <= n,
                wire_to_display@.len() == i,
                forall|w: int| 0 <= w < i ==> (#[trigger] wire_to_display@[w]) == n,
            decreases n - i,
        {
            wire_to_display.push(n);
            i = i + 1;
        }
        let mut d: usize = 0;
        while d < n
            invariant
                d <= n,
                n == display_to_wire@.len(),
                wire_to_display@.len() == n,
                forall|dd: int|
                    0 <= dd < d ==> (#[trigger] display_to_wire@[dd]) < n
                        && wire_to_display@[display_to_wire@[dd] as int] as int == dd,
                forall|w: int|
                    0 <= w < n && (#[trigger] wire_to_display@[w]) != n ==> (wire_to_display@[w]
                        as int) < d && display_to_wire@[wire_to_display@[w] as int] as int == w,
            decreases n - d,
        {
            let wi = display_to_wire[d];
            if wi >= n {
                return Err(ClientError::SchemaMismatch);
            }
            if wire_to_display[wi] != n {
                proof {
                    let dd = wire_to_display@[wi as int] as int;
                    assert(0 <= dd < d && display_to_wire@[dd] == display_to_wire@[d as int]);
                }
                return Err(ClientError::SchemaMismatch);
            }
            wire_to_display[wi] = d;
            d = d + 1;
        }
        let mut w: usize = 0;
        while w < n
            invariant
                w <= n,
                n == display_to_wire@.len(),
                wire_to_display@.len() == n,
                forall|dd: int|
                    0 <= dd < n ==> (#[trigger] display_to_wire@[dd]) < n
                        && wire_to_display@[display_to_wire@[dd] as int] as int == dd,
                forall|ww: int|
                    0 <= ww < n && (#[trigger] wire_to_display@[ww]) != n ==> (wire_to_display@[ww]
                        as int) < n && display_to_wire@[wire_to_display@[ww] as int] as int == ww,
                forall|ww: int| 0 <= ww < w ==> (#[trigger] wire_to_display@[ww]) != n,
            decreases n - w,
        {
            if wire_to_display[w] >= n {
                proof {
                    assert forall|dd: int| 0 <= dd < n implies (#[trigger] display_to_wire@[dd])
                        as int != w as int by {
                        if display_to_wire@[dd] as int == w as int {
                            assert(wire_to_display@[w as int] as int == dd);
                        }
                    }
                    assert(!spec_in_image(display_to_wire@, w as int));
                }
                return Err(ClientError::SchemaMismatch);
            }
            w = w + 1;
        }
        let mut value_pos: Vec<usize> = Vec::new();
        let mut bitmap_pos: Vec<usize> = Vec::new();
        let mut bitmaps: Vec<u8> = Vec::new();
        let mut j: usize = 0;
        while j < n
            invariant
                j <= n,
                value_pos@.len() == j,
                bitmap_pos@.len() == j,
                bitmaps@.len() == j,
                forall|k: int| 0 <= k < j ==> (#[trigger] value_pos@[k]) == 0,
                forall|k: int| 0 <= k < j ==> (#[trigger] bitmap_pos@[k]) == 0,
            decreases n - j,
        {
            value_pos.push(0);
            bitmap_pos.push(0);
            bitmaps.push(0);
            j = j + 1;
        }
        let ds = RpcDataSet {
            column_names,
            data_types,
            display_to_wire,
            wire_to_display,
            is_ignore_time_stamp,
            page: first_page,
            time_pos: 0,
            value_pos,
            bitmap_pos,
            bitmaps,
            row_index: 0,
            timestamp: -1,
            closed: false,
            failed: false,
        };
        proof {
            let v = ds@;
            assert(v.column_names.len() == n as int);
            assert(v.value_list.len() == n as int);
            assert(spec_cursor_wf(v));
            assert forall|ww: int| 0 <= ww < n implies #[trigger] spec_in_image(
                ds.display_to_wire@,
                ww,
            ) by {
                let dd = ds.wire_to_display@[ww] as int;
                assert(0 <= dd < n && ds.display_to_wire@[dd] as int == ww);
            }
        }
        Ok(ds)
    }

    /// Build a cursor for a response that carries no column-position map:
    /// the wire order is the display order, so the position map is the
    /// identity.
    pub fn new_with_default_order(
        column_names: Vec<String>,
        data_types: Vec<TSDataType>,
        is_ignore_time_stamp: Option<bool>,
        first_page: QueryPage,
    ) -> (r: Result<RpcDataSet, ClientError>)
        ensures
            match r {
                Ok(ds) => {
                    &&& spec_cursor_wf(ds@)
                    &&& ds@.column_names == column_names@.map_values(|s: String| s@)
                    &&& ds@.data_types == data_types@
                    &&& forall|d: int|
                        0 <= d < spec_ncols(ds@) ==> (#[trigger] ds@.display_to_wire[d]) as int
                            == d
                    &&& ds@.is_ignore_time_stamp == is_ignore_time_stamp
                    &&& ds@.time == first_page.time@
                    &&& ds@.value_list == first_page.value_list@.map_values(|b: Vec<u8>| b@)
                    &&& ds@.bitmap_list == first_page.bitmap_list@.map_values(|b: Vec<u8>| b@)
                    &&& ds@.time_pos == 0
                    &&& forall|w: int| 0 <= w < spec_ncols(ds@) ==> (#[trigger] ds@.value_pos[w]) == 0
                    &&& forall|w: int|
                        0 <= w < spec_ncols(ds@) ==> (#[trigger] ds@.bitmap_pos[w]) == 0
                    &&& ds@.row_index == 0
                    &&& ds@.timestamp == -1
                    &&& !ds@.closed
                    &&& !ds@.failed
                },
                Err(ClientError::SchemaMismatch) => !(data_types@.len() == column_names@.len()
                    && first_page.value_list@.len() == column_names@.len()
                    && first_page.bitmap_list@.len() == column_names@.len()),
                Err(_) => false,
            },
    {
        let n = column_names.len();
        let mut display_to_wire: Vec<usize> = Vec::new();
        let mut d: usize = 0;
        while d < n
            invariant
                d <= n,
                display_to_wire@.len() == d,
                forall|j: int| 0 <= j < d ==> (#[trigger] display_to_wire@[j]) as int == j,
            decreases n - d,
        {
            display_to_wire.push(d);
            d = d + 1;
        }
        proof {
            let names = column_names@.map_values(|s: String| s@);
            let d2w = display_to_wire@;
            if data_types@.len() == n && first_page.value_list@.len() == n
                && first_page.bitmap_list@.len() == n {
                assert forall|w: int| 0 <= w < n implies #[trigger] spec_in_image(d2w, w) by {
                    assert(0 <= w < d2w.len() && d2w[w] as int == w);
                }
                assert(spec_valid_layout(
                    names,
                    data_types@,
                    d2w,
                    first_page.value_list@.map_values(|b: Vec<u8>| b@),
                    first_page.bitmap_list@.map_values(|b: Vec<u8>| b@),
                ));
            }
        }
        Self::new(column_names, data_types, display_to_wire, is_ignore_time_stamp, first_page)
    }

    /// Whether the server-side statement has been released.
    pub fn is_closed(&self) -> (r: bool)
        ensures
            r == self@.closed,
    {
        self.closed
    }

    /// Replace the buffered page with a freshly fetched one and rewind
    /// the page-local read state. A page whose per-column lists do not
    /// match the cursor's column count is rejected.
    pub fn feed_page(&mut self, page: QueryPage) -> (r: Result<(), ClientError>)
        requires
            spec_cursor_wf(old(self)@),
        ensures
            match r {
                Ok(()) => {
                    &&& page.value_list@.len() == spec_ncols(old(self)@)
                    &&& page.bitmap_list@.len() == spec_ncols(old(self)@)
                    &&& spec_cursor_wf(final(self)@)
                    &&& final(self)@ == (RpcDataSetV {
                        time: page.time@,
                        value_list: page.value_list@.map_values(|b: Vec<u8>| b@),
                        bitmap_list: page.bitmap_list@.map_values(|b: Vec<u8>| b@),
                        time_pos: 0,
                        value_pos: Seq::new(spec_ncols(old(self)@) as nat, |w: int| 0int),
                        bitmap_pos: Seq::new(spec_ncols(old(self)@) as nat, |w: int| 0int),
                        row_index: 0,
                        ..old(self)@
                    })
                },
                Err(ClientError::SchemaMismatch) => {
                    &&& !(page.value_list@.len() == spec_ncols(old(self)@)
                        && page.bitmap_list@.len() == spec_ncols(old(self)@))
                    &&& *final(self) == *old(self)
                },
                Err(_) => false,
            },
    {
        let n = self.value_pos.len();
        if page.value_list.len() != n || page.bitmap_list.len() != n {
            return Err(ClientError::SchemaMismatch);
        }
        self.page = page;
        self.time_pos = 0;
        self.row_index = 0;
        let mut value_pos: Vec<usize> = Vec::new();
        let mut bitmap_pos: Vec<usize> = Vec::new();
        let mut j: usize = 0;
        while j < n
            invariant
                j <= n,
                value_pos@.len() == j,
                bitmap_pos@.len() == j,
                forall|k: int| 0 <= k < j ==> (#[trigger] value_pos@[k]) == 0,
                forall|k: int| 0 <= k < j ==> (#[trigger] bitmap_pos@[k]) == 0,
            decreases n - j,
        {
            value_pos.push(0);
            bitmap_pos.push(0);
            j = j + 1;
        }
        self.value_pos = value_pos;
        self.bitmap_pos = bitmap_pos;
        proof {
            assert(self@.value_pos =~= Seq::new(spec_ncols(old(self)@) as nat, |w: int| 0int));
            assert(self@.bitmap_pos =~= Seq::new(spec_ncols(old(self)@) as nat, |w: int| 0int));
            assert(self@ =~= (RpcDataSetV {
                time: self.page.time@,
                value_list: self.page.value_list@.map_values(|b: Vec<u8>| b@),
                bitmap_list: self.page.bitmap_list@.map_values(|b: Vec<u8>| b@),
                time_pos: 0,
                value_pos: Seq::new(spec_ncols(old(self)@) as nat, |w: int| 0int),
                bitmap_pos: Seq::new(spec_ncols(old(self)@) as nat, |w: int| 0int),
                row_index: 0,
                ..old(self)@
            }));
        }
        Ok(())
    }

    /// Mark the cursor closed. Returns whether the caller must release
    /// the server-side statement: true on the first call, false — with no
    /// other effect — on every later one.
    pub fn close(&mut self) -> (r: bool)
        ensures
            r == !old(self)@.closed,
            final(self)@ == (RpcDataSetV { closed: true, ..old(self)@ }),
    {
        let was_open = !self.closed;
        self.closed = true;
        proof {
            assert(self@ =~= (RpcDataSetV { closed: true, ..old(self)@ }));
        }
        was_open
    }

    /// The caller-observable face of idempotent closing: by `close`'s
    /// contract the first call returns true and leaves the cursor closed;
    /// this lemma shows a call on a closed cursor changes nothing, so by
    /// the same contract it returns false and no second release is owed.
    pub proof fn lemma_close_idempotent(v: RpcDataSetV)
        requires
            v.closed,
        ensures
            (RpcDataSetV { closed: true, ..v }) == v,
    {
        assert((RpcDataSetV { closed: true, ..v }) =~= v);
    }

    /// Decode one row from the buffered page, or say what must happen
    /// first: `NeedFetch` when the page is used up and the cursor is
    /// still live, `End` once it is closed or poisoned by a decode
    /// failure. A truncated page poisons the cursor and surfaces the
    /// codec error.
    pub fn next_row(&mut self) -> (r: Result<CursorStep, CodecError>)
        requires
            spec_cursor_wf(old(self)@),
        ensures
            spec_cursor_wf(final(self)@),
            match r {
                Ok(CursorStep::End) => {
                    &&& (old(self)@.closed || old(self)@.failed)
                    &&& *final(self) == *old(self)
                },
                Ok(CursorStep::NeedFetch) => {
                    &&& !old(self)@.closed
                    &&& !old(self)@.failed
                    &&& old(self)@.time_pos == old(self)@.time.len()
                    &&& *final(self) == *old(self)
                },
                Ok(CursorStep::Row(rec)) => {
                    &&& !old(self)@.closed
                    &&& !old(self)@.failed
                    &&& spec_row_ok(old(self)@)
                    &&& final(self)@ == spec_row_step(old(self)@)
                    &&& spec_row_values_ok(old(self)@, rec)
                },
                Err(e) => {
                    &&& !old(self)@.closed
                    &&& !old(self)@.failed
                    &&& old(self)@.time_pos < old(self)@.time.len()
                    &&& !spec_row_ok(old(self)@)
                    &&& e == CodecError::Truncated
                    &&& final(self)@ == (RpcDataSetV { failed: true, ..old(self)@ })
                },
            },
    {
        if self.closed || self.failed {
            return Ok(CursorStep::End);
        }
        let time_len = self.page.time.len();
        if self.time_pos == time_len {
            return Ok(CursorStep::NeedFetch);
        }
        if time_len - self.time_pos < 8 {
            self.failed = true;
            proof {
                assert(self@ =~= (RpcDataSetV { failed: true, ..old(self)@ }));
            }
            return Err(CodecError::Truncated);
        }
        let ts_word = read_u64_be(&self.page.time, self.time_pos);
        let ts = u64_to_i64(ts_word);
        let n = self.value_pos.len();
        let fresh = self.row_index % 8 == 0;
        let shift = (self.row_index % 8) as u8;
        let mut cells: Vec<Value> = Vec::new();
        let mut new_value_pos: Vec<usize> = Vec::new();
        let mut new_bitmap_pos: Vec<usize> = Vec::new();
        let mut new_bitmaps: Vec<u8> = Vec::new();
        let ghost pre = old(self)@;
        let mut w: usize = 0;
        while w < n
            invariant
                w <= n,
                n == spec_ncols(pre),
                pre == old(self)@,
                *self == *old(self),
                spec_cursor_wf(pre),
                !pre.closed,
                !pre.failed,
                pre.time_pos + 8 <= pre.time.len(),
                ts == spec_row_timestamp(pre),
                fresh == spec_need_fresh(pre),
                shift == (pre.row_index % 8) as u8,
                cells@.len() == w,
                new_value_pos@.len() == w,
                new_bitmap_pos@.len() == w,
                new_bitmaps@.len() == w,
                forall|k: int| 0 <= k < w ==> (#[trigger] spec_cell_result(pre, k)) is Ok,
                forall|k: int| 0 <= k < w ==> (#[trigger] cells@[k]@) == spec_cell_value(pre, k),
                forall|k: int|
                    0 <= k < w ==> (#[trigger] new_value_pos@[k]) as int == spec_cell_newpos(
                        pre,
                        k,
                    ),
                forall|k: int|
                    0 <= k < w ==> (#[trigger] new_value_pos@[k]) as int <= pre.value_list[k].len(),
                forall|k: int|
                    0 <= k < w ==> (#[trigger] new_bitmap_pos@[k]) as int
                        <= pre.bitmap_list[k].len(),
                forall|k: int|
                    0 <= k < w ==> (#[trigger] new_bitmap_pos@[k]) as int == pre.bitmap_pos[k] + (
                    if spec_need_fresh(pre) {
                        1int
                    } else {
                        0int
                    }),
                forall|k: int| 0 <= k < w ==> (#[trigger] new_bitmaps@[k]) == spec_cur_bitmap(
                    pre,
                    k,
                ),
            decreases n - w,
        {
            let bm: u8;
            if fresh {
                let bl = &self.page.bitmap_list[w];
                if self.bitmap_pos[w] >= bl.len() {
                    self.failed = true;
                    proof {
                        assert(!spec_bitmap_avail(pre, w as int));
                        assert(spec_cell_result(pre, w as int) is Err);
                        assert(self@ =~= (RpcDataSetV { failed: true, ..old(self)@ }));
                    }
                    return Err(CodecError::Truncated);
                }
                bm = bl[self.bitmap_pos[w]];
                new_bitmap_pos.push(self.bitmap_pos[w] + 1);
            } else {
                bm = self.bitmaps[w];
                new_bitmap_pos.push(self.bitmap_pos[w]);
            }
            new_bitmaps.push(bm);
            proof {
                assert(bm == spec_cur_bitmap(pre, w as int));
                assert(pre.bitmap_list[w as int] == self.page.bitmap_list@[w as int]@);
                assert(pre.bitmap_pos[w as int] == self.bitmap_pos@[w as int] as int);
                assert(new_bitmap_pos@[w as int] as int <= pre.bitmap_list[w as int].len());
            }
            let mask: u8 = 0x80u8 >> shift;
            if mask & bm == 0 {
                cells.push(Value::Null);
                new_value_pos.push(self.value_pos[w]);
                proof {
                    assert(spec_cell_null(pre, w as int));
                    assert(spec_cell_result(pre, w as int) == Ok::<(ValueV, int), CodecError>(
                        (ValueV::Null, pre.value_pos[w as int]),
                    ));
                }
            } else {
                let ty = self.data_types[self.wire_to_display[w]];
                proof {
                    assert(ty == spec_wire_type(pre, w as int));
                    assert(!spec_cell_null(pre, w as int));
                    assert(self.page.value_list@[w as int]@ == pre.value_list[w as int]);
                }
                match crate::client::decode_typed(
                    &self.page.value_list[w],
                    self.value_pos[w],
                    ty,
                ) {
                    Ok((val, np)) => {
                        cells.push(val);
                        new_value_pos.push(np);
                        proof {
                            assert(spec_cell_result(pre, w as int) matches Ok((vv, pp)) && vv
                                == val@ && pp == np as int);
                        }
                    },
                    Err(e) => {
                        self.failed = true;
                        proof {
                            assert(spec_cell_result(pre, w as int) is Err);
                            assert(self@ =~= (RpcDataSetV { failed: true, ..old(self)@ }));
                        }
                        return Err(e);
                    },
                }
            }
            w = w + 1;
        }
        // All cells decoded: commit the new read state.
        let ghost nvp = new_value_pos@;
        let ghost nbp = new_bitmap_pos@;
        self.time_pos = self.time_pos + 8;
        self.row_index = self.row_index + 1;
        self.timestamp = ts;
        self.value_pos = new_value_pos;
        self.bitmap_pos = new_bitmap_pos;
        self.bitmaps = new_bitmaps;
        proof {
            assert(spec_row_ok(pre));
            assert(ts == spec_row_timestamp(pre));
            assert(self@.value_pos =~= spec_row_step(pre).value_pos);
            assert(self@.bitmap_pos =~= spec_row_step(pre).bitmap_pos);
            assert(self@.bitmaps =~= spec_row_step(pre).bitmaps);
            assert(self@ =~= spec_row_step(pre));
            assert(spec_cursor_wf(self@)) by {
                let v = self@;
                assert forall|k: int| 0 <= k < spec_ncols(v) implies 0 <= #[trigger] v.value_pos[k]
                    <= v.value_list[k].len() by {
                    assert(v.value_pos[k] == nvp[k] as int);
                }
                assert forall|k: int| 0 <= k < spec_ncols(v) implies 0
                    <= #[trigger] v.bitmap_pos[k] <= v.bitmap_list[k].len() by {
                    assert(v.bitmap_pos[k] == nbp[k] as int);
                }
            }
        }
        let ignore = self.is_ignore_timestamp();
        let mut out: Vec<Value> = Vec::new();
        if !ignore {
            out.push(Value::Int64(ts));
        }
        let ghost off: int = if ignore { 0 } else { 1 };
        let mut d: usize = 0;
        while d < n
            invariant
                d <= n,
                n == spec_ncols(pre),
                spec_cursor_wf(pre),
                pre.display_to_wire == self.display_to_wire@,
                n == self.display_to_wire@.len(),
                cells@.len() == n,
                forall|k: int| 0 <= k < n ==> (#[trigger] cells@[k]@) == spec_cell_value(pre, k),
                out@.len() == off + d,
                off == if ignore { 0int } else { 1int },
                !ignore ==> out@[0]@ == ValueV::Int64(ts),
                forall|dd: int|
                    0 <= dd < d ==> (#[trigger] out@[off + dd]@) == spec_cell_value(
                        pre,
                        pre.display_to_wire[dd] as int,
                    ),
            decreases n - d,
        {
            let wi = self.display_to_wire[d];
            out.push(cells[wi].duplicate());
            d = d + 1;
        }
        Ok(CursorStep::Row(RowRecord { timestamp: ts, values: out }))
    }

    /// Whether the result suppresses timestamps; absent means not
    /// suppressed.
    pub fn is_ignore_timestamp(&self) -> (r: bool)
        ensures
            r == spec_ignore_timestamp(self@),
    {
        if let Some(v) = self.is_ignore_time_stamp {
            v
        } else {
            false
        }
    }

    /// The caller-visible column names: the display-ordered names, with
    /// the synthetic leading "Time" column unless timestamps are
    /// suppressed.
    pub fn get_column_names(&self) -> (r: Vec<String>)
        ensures
            ({
                let off: int = if spec_ignore_timestamp(self@) { 0 } else { 1 };
                &&& r@.len() == off + self@.column_names.len()
                &&& (!spec_ignore_timestamp(self@) ==> r@[0]@ == "Time"@)
                &&& forall|d: int|
                    0 <= d < self@.column_names.len() ==> (#[trigger] r@[off + d]@)
                        == self@.column_names[d]
            }),
    {
        let mut r: Vec<String> = Vec::new();
        let ghost off: int = if spec_ignore_timestamp(self@) { 0 } else { 1 };
        if !self.is_ignore_timestamp() {
            r.push("Time".to_owned());
        }
        let n = self.column_names.len();
        let mut d: usize = 0;
        while d < n
            invariant
                d <= n,
                n == self.column_names@.len(),
                r@.len() == off + d,
                off == if spec_ignore_timestamp(self@) { 0int } else { 1int },
                !spec_ignore_timestamp(self@) ==> r@[0]@ == "Time"@,
                forall|dd: int|
                    0 <= dd < d ==> (#[trigger] r@[off + dd]@) == self@.column_names[dd],
            decreases n - d,
        {
            r.push(self.column_names[d].clone());
            d = d + 1;
        }
        r
    }

    /// The caller-visible column types: the display-ordered types, with
    /// the timestamp's `Int64` prepended unless timestamps are
    /// suppressed.
    pub fn get_data_types(&self) -> (r: Vec<TSDataType>)
        ensures
            ({
                let off: int = if spec_ignore_timestamp(self@) { 0 } else { 1 };
                &&& r@.len() == off + self@.data_types.len()
                &&& (!spec_ignore_timestamp(self@) ==> r@[0] == TSDataType::Int64)
                &&& forall|d: int|
                    0 <= d < self@.data_types.len() ==> (#[trigger] r@[off + d])
                        == self@.data_types[d]
            }),
    {
        let mut r: Vec<TSDataType> = Vec::new();
        let ghost off: int = if spec_ignore_timestamp(self@) { 0 } else { 1 };
        if !self.is_ignore_timestamp() {
            r.push(TSDataType::Int64);
        }
        let n = self.data_types.len();
        let mut d: usize = 0;
        while d < n
            invariant
                d <= n,
                n == self.data_types@.len(),
                r@.len() == off + d,
                off == if spec_ignore_timestamp(self@) { 0int } else { 1int },
                !spec_ignore_timestamp(self@) ==> r@[0] == TSDataType::Int64,
                forall|dd: int| 0 <= dd < d ==> (#[trigger] r@[off + dd]) == self@.data_types[dd],
            decreases n - d,
        {
            r.push(self.data_types[d]);
            d = d + 1;
        }
        r
    }
}

impl crate::client::DataSet for RpcDataSet {
    fn get_column_names(&self) -> Vec<String> {
        RpcDataSet::get_column_names(self)
    }

    fn get_data_types(&self) -> Vec<TSDataType> {
        RpcDataSet::get_data_types(self)
    }

    fn is_ignore_timestamp(&self) -> bool {
        RpcDataSet::is_ignore_timestamp(self)
    }
}

} // verus!
