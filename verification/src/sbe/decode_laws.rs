//! What is decoded of a frame is what its sender wrote in it.
use crate::sbe::decode;
use crate::sbe::encode_laws;
use crate::sbe::encoder;
use crate::sbe::frame;
use crate::sbe::messages::{
    ExecutionReportAckView, ExecutionReportView, LogonAckView, MarketDataRequestRejectView,
    OrderCancelRejectView, RejectView,
};
use crate::sbe::place;
use crate::sbe::wire;
use vstd::prelude::*;

verus! {

/// A frame with `body`, and what follows it in the stream.
pub open spec fn sent(
    template_id: u16,
    block_length: nat,
    seq_num: u32,
    sending_time: i64,
    body: Seq<u8>,
    rest: Seq<u8>,
) -> Seq<u8> {
    encoder::frame_of(template_id, block_length as u16, seq_num, sending_time, body) + rest
}

/// An `i64` as it is written.
pub open spec fn i64_bytes(v: i64) -> Seq<u8> {
    wire::le_bytes(wire::twos64(v) as nat, 8)
}

/// An `i32` as it is written.
pub open spec fn i32_bytes(v: i32) -> Seq<u8> {
    wire::le_bytes(wire::twos32(v) as nat, 4)
}

/// A `u32` as it is written.
pub open spec fn u32_bytes(v: u32) -> Seq<u8> {
    wire::le_bytes(v as nat, 4)
}

/// A LogonAck decodes to the interval, the warning and the id that were written. Fixed
/// fields that came later, `more`, are passed over.
pub proof fn law_logon_ack_reads_back(
    seq_num: u32,
    sending_time: i64,
    encrypt: u8,
    heart_bt_int: u32,
    deprecated: u8,
    more: Seq<u8>,
    uuid: Seq<u8>,
    rest: Seq<u8>,
)
    requires
        more.len() <= 60_000,
        uuid.len() <= 255,
    ensures
        ({
            let root = seq![encrypt] + u32_bytes(heart_bt_int) + seq![deprecated] + more;
            let s = sent(
                20009,
                root.len(),
                seq_num,
                sending_time,
                root + wire::var8_bytes(uuid),
                rest,
            );
            decode::logon_ack_spec(frame::header_of(s), s) == Some(
                LogonAckView { heart_bt_int, schema_deprecated: deprecated == 1, uuid },
            )
        }),
{
    broadcast use place::group_stands;

    let root = seq![encrypt] + u32_bytes(heart_bt_int) + seq![deprecated] + more;
    let body = root + wire::var8_bytes(uuid);
    wire::lemma_le_bytes_len(uuid.len(), 1);
    wire::lemma_le_bytes_len(heart_bt_int as nat, 4);
    encode_laws::law_header_fields_stand(
        20009,
        root.len() as u16,
        seq_num,
        sending_time,
        body,
        rest,
    );
    let s = sent(20009, root.len(), seq_num, sending_time, body, rest);
    assert(place::stands(s, 26, root));
    assert(place::stands(s, 26 + root.len() as int, wire::var8_bytes(uuid)));
}

/// An ExecutionReportAck decodes to what was written.
pub proof fn law_execution_report_ack_reads_back(
    seq_num: u32,
    sending_time: i64,
    v: ExecutionReportAckView,
    list_id: i64,
    reason: u8,
    more: Seq<u8>,
    rest: Seq<u8>,
)
    requires
        more.len() <= 60_000,
        v.cl_ord_id.len() <= 255,
        v.symbol.len() <= 255,
    ensures
        ({
            let root = i64_bytes(v.order_id) + i64_bytes(list_id) + i64_bytes(v.transact_time)
                + seq![v.exec_type] + seq![v.ord_status] + seq![reason] + i32_bytes(v.error_code)
                + more;
            let s = sent(
                198,
                root.len(),
                seq_num,
                sending_time,
                root + wire::var8_bytes(v.cl_ord_id) + wire::var8_bytes(v.symbol),
                rest,
            );
            decode::execution_report_ack_spec(frame::header_of(s), s) == Some(v)
        }),
{
    broadcast use place::group_stands;

    let root = i64_bytes(v.order_id) + i64_bytes(list_id) + i64_bytes(v.transact_time) + seq![
        v.exec_type,
    ] + seq![v.ord_status] + seq![reason] + i32_bytes(v.error_code) + more;
    let body = root + wire::var8_bytes(v.cl_ord_id) + wire::var8_bytes(v.symbol);
    wire::lemma_le_bytes_len(v.cl_ord_id.len(), 1);
    wire::lemma_le_bytes_len(v.symbol.len(), 1);
    encode_laws::law_header_fields_stand(
        198,
        root.len() as u16,
        seq_num,
        sending_time,
        body,
        rest,
    );
    let s = sent(198, root.len(), seq_num, sending_time, body, rest);
    assert(place::stands(s, 26, root));
    assert(place::stands(s, 26 + root.len() as int, wire::var8_bytes(v.cl_ord_id)));
    place::law_twos_complement(0, v.error_code, v.order_id);
    place::law_twos_complement(0, 0, v.transact_time);
    assert(decode::execution_report_ack_spec(frame::header_of(s), s)->0 =~= v);
}

/// An OrderCancelReject decodes to what was written.
pub proof fn law_order_cancel_reject_reads_back(
    seq_num: u32,
    sending_time: i64,
    v: OrderCancelRejectView,
    list_id: i64,
    restrictions: u8,
    response_to: u8,
    more: Seq<u8>,
    orig_cl_list_id: Seq<u8>,
    rest: Seq<u8>,
)
    requires
        more.len() <= 60_000,
        v.cl_ord_id.len() <= 255,
        v.orig_cl_ord_id.len() <= 255,
        orig_cl_list_id.len() <= 255,
        v.symbol.len() <= 255,
    ensures
        ({
            let root = i64_bytes(v.order_id) + i64_bytes(list_id) + seq![restrictions] + seq![
                response_to,
            ] + i32_bytes(v.error_code) + more;
            let s = sent(
                96,
                root.len(),
                seq_num,
                sending_time,
                root + wire::var8_bytes(v.cl_ord_id) + wire::var8_bytes(v.orig_cl_ord_id)
                    + wire::var8_bytes(orig_cl_list_id) + wire::var8_bytes(v.symbol),
                rest,
            );
            decode::order_cancel_reject_spec(frame::header_of(s), s) == Some(v)
        }),
{
    broadcast use place::group_stands;

    let root = i64_bytes(v.order_id) + i64_bytes(list_id) + seq![restrictions] + seq![response_to]
        + i32_bytes(v.error_code) + more;
    let body = root + wire::var8_bytes(v.cl_ord_id) + wire::var8_bytes(v.orig_cl_ord_id)
        + wire::var8_bytes(orig_cl_list_id) + wire::var8_bytes(v.symbol);
    wire::lemma_le_bytes_len(v.cl_ord_id.len(), 1);
    wire::lemma_le_bytes_len(v.orig_cl_ord_id.len(), 1);
    wire::lemma_le_bytes_len(orig_cl_list_id.len(), 1);
    wire::lemma_le_bytes_len(v.symbol.len(), 1);
    encode_laws::law_header_fields_stand(
        96,
        root.len() as u16,
        seq_num,
        sending_time,
        body,
        rest,
    );
    let s = sent(96, root.len(), seq_num, sending_time, body, rest);
    assert(place::stands(s, 26, root));
    assert(place::stands(s, 26 + root.len() as int, wire::var8_bytes(v.cl_ord_id)));
    place::law_twos_complement(0, v.error_code, v.order_id);
    assert(decode::order_cancel_reject_spec(frame::header_of(s), s)->0 =~= v);
}

/// A Reject decodes to what was written.
pub proof fn law_reject_reads_back(
    seq_num: u32,
    sending_time: i64,
    v: RejectView,
    more: Seq<u8>,
    ref_msg_type: Seq<u8>,
    rest: Seq<u8>,
)
    requires
        more.len() <= 60_000,
        ref_msg_type.len() <= 255,
        v.text.len() <= 65_535,
    ensures
        ({
            let root = u32_bytes(v.ref_seq_num) + u32_bytes(v.ref_tag_id) + seq![
                v.session_reject_reason,
            ] + i32_bytes(v.error_code) + more;
            let s = sent(
                20003,
                root.len(),
                seq_num,
                sending_time,
                root + wire::var8_bytes(ref_msg_type) + wire::var16_bytes(v.text),
                rest,
            );
            decode::reject_spec(frame::header_of(s), s) == Some(v)
        }),
{
    broadcast use place::group_stands;

    let root = u32_bytes(v.ref_seq_num) + u32_bytes(v.ref_tag_id) + seq![v.session_reject_reason]
        + i32_bytes(v.error_code) + more;
    let body = root + wire::var8_bytes(ref_msg_type) + wire::var16_bytes(v.text);
    wire::lemma_le_bytes_len(ref_msg_type.len(), 1);
    wire::lemma_le_bytes_len(v.text.len(), 2);
    encode_laws::law_header_fields_stand(
        20003,
        root.len() as u16,
        seq_num,
        sending_time,
        body,
        rest,
    );
    let s = sent(20003, root.len(), seq_num, sending_time, body, rest);
    assert(place::stands(s, 26, root));
    assert(place::stands(s, 26 + root.len() as int, wire::var8_bytes(ref_msg_type)));
    place::law_twos_complement(0, v.error_code, 0);
    assert(decode::reject_spec(frame::header_of(s), s)->0 =~= v);
}

/// A MarketDataRequestReject decodes to what was written.
pub proof fn law_md_request_reject_reads_back(
    seq_num: u32,
    sending_time: i64,
    v: MarketDataRequestRejectView,
    reason: u8,
    more: Seq<u8>,
    rest: Seq<u8>,
)
    requires
        more.len() <= 60_000,
        v.md_req_id.len() <= 255,
        v.text.len() <= 65_535,
    ensures
        ({
            let root = seq![reason] + i32_bytes(v.error_code) + more;
            let s = sent(
                203,
                root.len(),
                seq_num,
                sending_time,
                root + wire::var8_bytes(v.md_req_id) + wire::var16_bytes(v.text),
                rest,
            );
            decode::md_request_reject_spec(frame::header_of(s), s) == Some(v)
        }),
{
    broadcast use place::group_stands;

    let root = seq![reason] + i32_bytes(v.error_code) + more;
    let body = root + wire::var8_bytes(v.md_req_id) + wire::var16_bytes(v.text);
    wire::lemma_le_bytes_len(v.md_req_id.len(), 1);
    wire::lemma_le_bytes_len(v.text.len(), 2);
    encode_laws::law_header_fields_stand(
        203,
        root.len() as u16,
        seq_num,
        sending_time,
        body,
        rest,
    );
    let s = sent(203, root.len(), seq_num, sending_time, body, rest);
    assert(place::stands(s, 26, root));
    assert(place::stands(s, 26 + root.len() as int, wire::var8_bytes(v.md_req_id)));
    place::law_twos_complement(0, v.error_code, 0);
    assert(decode::md_request_reject_spec(frame::header_of(s), s)->0 =~= v);
}

/// The id of a TestRequest and the text of a Logout are decoded as they were written,
/// behind whatever fixed fields there are.
pub proof fn law_ids_and_texts_read_back(
    template_id: u16,
    seq_num: u32,
    sending_time: i64,
    root: Seq<u8>,
    text: Seq<u8>,
    rest: Seq<u8>,
)
    requires
        root.len() <= 60_000,
    ensures
        text.len() <= 255 ==> ({
            let s = sent(
                template_id,
                root.len(),
                seq_num,
                sending_time,
                root + wire::var8_bytes(text),
                rest,
            );
            decode::test_request_spec(frame::header_of(s), s) == Some(text)
        }),
        text.len() <= 65_535 ==> ({
            let s = sent(
                template_id,
                root.len(),
                seq_num,
                sending_time,
                root + wire::var16_bytes(text),
                rest,
            );
            decode::logout_spec(frame::header_of(s), s) == Some(text)
        }),
{
    broadcast use place::group_stands;

    wire::lemma_le_bytes_len(text.len(), 1);
    wire::lemma_le_bytes_len(text.len(), 2);
    if text.len() <= 65_535 {
        let b16 = root + wire::var16_bytes(text);
        encode_laws::law_header_fields_stand(
            template_id,
            root.len() as u16,
            seq_num,
            sending_time,
            b16,
            rest,
        );
    }
    if text.len() <= 255 {
        let b8 = root + wire::var8_bytes(text);
        encode_laws::law_header_fields_stand(
            template_id,
            root.len() as u16,
            seq_num,
            sending_time,
            b8,
            rest,
        );
    }
}

/// The fixed fields of an ExecutionReport from the front to the trigger fields.
pub open spec fn report_orders(v: ExecutionReportView, exec_inst: u8) -> Seq<u8> {
    seq![wire::twos8(v.price_exponent)] + seq![wire::twos8(v.qty_exponent)] + i64_bytes(v.exec_id)
        + i64_bytes(v.order_id) + i64_bytes(v.order_qty) + seq![v.ord_type] + seq![v.side] + seq![
        exec_inst,
    ] + i64_bytes(v.price)
}

/// The fixed fields of an ExecutionReport from ExecType to OrdStatus.
pub open spec fn report_execution(v: ExecutionReportView, aggressor: u8) -> Seq<u8> {
    seq![v.exec_type] + i64_bytes(v.cum_qty) + i64_bytes(v.leaves_qty) + i64_bytes(
        v.cum_quote_qty,
    ) + seq![aggressor] + i64_bytes(v.trade_id) + i64_bytes(v.last_px) + i64_bytes(v.last_qty)
        + seq![v.ord_status]
}

/// The fixed fields of an ExecutionReport in schema order. Those that are not used
/// stand between the others, with as many bytes as the schema gives them: triggers,
/// pegs and TimeInForce 33; times, floors, lists, strategy and capacity 46; ids,
/// match, working and prevention fields 101; the expiry reason and later fields behind
/// the error code.
pub open spec fn report_root(
    v: ExecutionReportView,
    exec_inst: u8,
    triggers: Seq<u8>,
    times: Seq<u8>,
    aggressor: u8,
    matches: Seq<u8>,
    later: Seq<u8>,
) -> Seq<u8> {
    report_orders(v, exec_inst) + triggers + i64_bytes(v.transact_time) + times
        + report_execution(v, aggressor) + matches + i32_bytes(v.error_code) + later
}

/// The entries of a MiscFees group one behind the other: fixed bytes and a currency.
pub open spec fn fee_bytes(fees: Seq<(Seq<u8>, Seq<u8>)>) -> Seq<u8>
    decreases fees.len(),
{
    if fees.len() == 0 {
        Seq::empty()
    } else {
        fees[0].0 + wire::var8_bytes(fees[0].1) + fee_bytes(fees.drop_first())
    }
}

/// Each entry has as many fixed bytes as the group declares, and a currency that fits.
pub open spec fn fees_ok(fees: Seq<(Seq<u8>, Seq<u8>)>, block: nat) -> bool {
    forall|i: int|
        0 <= i < fees.len() ==> (#[trigger] fees[i]).0.len() == block && fees[i].1.len() <= 255
}

/// The fees are passed over, however many they are.
proof fn lemma_fees_are_passed(
    s: Seq<u8>,
    p: int,
    block: nat,
    fees: Seq<(Seq<u8>, Seq<u8>)>,
)
    requires
        fees_ok(fees, block),
        place::stands(s, p, fee_bytes(fees)),
    ensures
        decode::after_misc_fees(s, p, block as int, fees.len() as int) == Some(
            p + fee_bytes(fees).len(),
        ),
    decreases fees.len(),
{
    broadcast use place::group_stands;

    if fees.len() > 0 {
        let (fixed, currency) = fees[0];
        let rest = fees.drop_first();
        wire::lemma_le_bytes_len(currency.len(), 1);
        assert(place::stands(s, p, fixed + wire::var8_bytes(currency)));
        assert(place::stands(s, p + block, wire::var8_bytes(currency)));
        assert(place::stands(s, p + block + 1 + currency.len(), fee_bytes(rest)));
        assert forall|i: int| 0 <= i < rest.len() implies (#[trigger] rest[i]).0.len() == block
            && rest[i].1.len() <= 255 by {
            assert(rest[i] == fees[i + 1]);
        }
        lemma_fees_are_passed(s, p + block + 1 + currency.len(), block, rest);
    }
}

/// The strings of an ExecutionReport, in schema order.
pub open spec fn report_strings(
    v: ExecutionReportView,
    secondary: Seq<u8>,
    counter: Seq<u8>,
) -> Seq<u8> {
    wire::var8_bytes(v.cl_ord_id) + wire::var8_bytes(v.orig_cl_ord_id) + wire::var8_bytes(v.symbol)
        + wire::var8_bytes(secondary) + wire::var8_bytes(counter) + wire::var16_bytes(v.error_text)
}

proof fn lemma_strings_read_back(
    s: Seq<u8>,
    p: int,
    v: ExecutionReportView,
    secondary: Seq<u8>,
    counter: Seq<u8>,
)
    requires
        place::stands(s, p, report_strings(v, secondary, counter)),
        v.cl_ord_id.len() <= 255,
        v.orig_cl_ord_id.len() <= 255,
        v.symbol.len() <= 255,
        secondary.len() <= 255,
        counter.len() <= 255,
        v.error_text.len() <= 65_535,
    ensures
        decode::execution_report_strings(s, p) matches Some(x) && x.cl_ord_id == v.cl_ord_id
            && x.orig_cl_ord_id == v.orig_cl_ord_id && x.symbol == v.symbol && x.error_text
            == v.error_text,
{
    broadcast use place::group_stands;

    wire::lemma_le_bytes_len(v.cl_ord_id.len(), 1);
    wire::lemma_le_bytes_len(v.orig_cl_ord_id.len(), 1);
    wire::lemma_le_bytes_len(v.symbol.len(), 1);
    wire::lemma_le_bytes_len(secondary.len(), 1);
    wire::lemma_le_bytes_len(counter.len(), 1);
    let p1 = p + 1 + v.cl_ord_id.len();
    let p2 = p1 + 1 + v.orig_cl_ord_id.len();
    let p3 = p2 + 1 + v.symbol.len();
    let p4 = p3 + 1 + secondary.len();
    let p5 = p4 + 1 + counter.len();
    assert(place::stands(s, p, wire::var8_bytes(v.cl_ord_id)));
    assert(place::stands(s, p1, wire::var8_bytes(v.orig_cl_ord_id)));
    assert(place::stands(s, p2, wire::var8_bytes(v.symbol)));
    assert(place::stands(s, p3, wire::var8_bytes(secondary)));
    assert(place::stands(s, p4, wire::var8_bytes(counter)));
    assert(place::stands(s, p5, wire::var16_bytes(v.error_text)));
}

/// The fixed fields are read back from where they stand.
proof fn lemma_root_reads_back(
    s: Seq<u8>,
    v: ExecutionReportView,
    exec_inst: u8,
    triggers: Seq<u8>,
    times: Seq<u8>,
    aggressor: u8,
    matches: Seq<u8>,
    later: Seq<u8>,
)
    requires
        triggers.len() == 33,
        times.len() == 46,
        matches.len() == 101,
        place::stands(
            s,
            26,
            report_root(v, exec_inst, triggers, times, aggressor, matches, later),
        ),
    ensures
        wire::i8_at(s, 26) == v.price_exponent,
        wire::i8_at(s, 27) == v.qty_exponent,
        wire::i64_at(s, 28) == v.exec_id,
        wire::i64_at(s, 36) == v.order_id,
        wire::i64_at(s, 44) == v.order_qty,
        s[52] == v.ord_type,
        s[53] == v.side,
        wire::i64_at(s, 55) == v.price,
        wire::i64_at(s, 96) == v.transact_time,
        s[150] == v.exec_type,
        wire::i64_at(s, 151) == v.cum_qty,
        wire::i64_at(s, 159) == v.leaves_qty,
        wire::i64_at(s, 167) == v.cum_quote_qty,
        wire::i64_at(s, 176) == v.trade_id,
        wire::i64_at(s, 184) == v.last_px,
        wire::i64_at(s, 192) == v.last_qty,
        s[200] == v.ord_status,
        wire::i32_at(s, 302) == v.error_code,
        report_root(v, exec_inst, triggers, times, aggressor, matches, later).len() == 280
            + later.len(),
{
    broadcast use place::group_stands;

    place::law_twos_complement(v.price_exponent, v.error_code, v.exec_id);
    place::law_twos_complement(v.qty_exponent, 0, v.order_id);
    place::law_twos_complement(0, 0, v.order_qty);
    place::law_twos_complement(0, 0, v.price);
    place::law_twos_complement(0, 0, v.transact_time);
    place::law_twos_complement(0, 0, v.cum_qty);
    place::law_twos_complement(0, 0, v.leaves_qty);
    place::law_twos_complement(0, 0, v.cum_quote_qty);
    place::law_twos_complement(0, 0, v.trade_id);
    place::law_twos_complement(0, 0, v.last_px);
    place::law_twos_complement(0, 0, v.last_qty);
    assert(place::stands(s, 26, report_orders(v, exec_inst)));
    assert(place::stands(s, 96, i64_bytes(v.transact_time)));
    assert(place::stands(s, 150, report_execution(v, aggressor)));
    assert(place::stands(s, 302, i32_bytes(v.error_code)));
}

/// An ExecutionReport decodes to what was written: every fixed field in its place in
/// the schema, the fees passed over, however many there are, and the strings in order.
pub proof fn law_execution_report_reads_back(
    seq_num: u32,
    sending_time: i64,
    v: ExecutionReportView,
    exec_inst: u8,
    triggers: Seq<u8>,
    times: Seq<u8>,
    aggressor: u8,
    matches: Seq<u8>,
    later: Seq<u8>,
    fee_block: u8,
    fees: Seq<(Seq<u8>, Seq<u8>)>,
    secondary: Seq<u8>,
    counter: Seq<u8>,
    rest: Seq<u8>,
)
    requires
        triggers.len() == 33,
        times.len() == 46,
        matches.len() == 101,
        1 <= later.len() <= 60_000,
        fees.len() <= 65_535,
        fees_ok(fees, fee_block as nat),
        fee_bytes(fees).len() <= 100_000_000,
        v.cl_ord_id.len() <= 255,
        v.orig_cl_ord_id.len() <= 255,
        v.symbol.len() <= 255,
        secondary.len() <= 255,
        counter.len() <= 255,
        v.error_text.len() <= 65_535,
    ensures
        ({
            let root = report_root(v, exec_inst, triggers, times, aggressor, matches, later);
            let s = sent(
                98,
                root.len(),
                seq_num,
                sending_time,
                root + (seq![fee_block] + wire::le_bytes(fees.len(), 2) + fee_bytes(fees))
                    + report_strings(v, secondary, counter),
                rest,
            );
            decode::execution_report_spec(frame::header_of(s), s) == Some(v)
        }),
{
    broadcast use place::group_stands;

    let root = report_root(v, exec_inst, triggers, times, aggressor, matches, later);
    let group = seq![fee_block] + wire::le_bytes(fees.len(), 2) + fee_bytes(fees);
    let strings = report_strings(v, secondary, counter);
    let body = root + group + strings;
    wire::lemma_le_bytes_len(v.cl_ord_id.len(), 1);
    wire::lemma_le_bytes_len(v.orig_cl_ord_id.len(), 1);
    wire::lemma_le_bytes_len(v.symbol.len(), 1);
    wire::lemma_le_bytes_len(secondary.len(), 1);
    wire::lemma_le_bytes_len(counter.len(), 1);
    wire::lemma_le_bytes_len(v.error_text.len(), 2);
    wire::lemma_le_bytes_len(fees.len(), 2);
    assert(root.len() == 280 + later.len());
    encode_laws::law_header_fields_stand(
        98,
        root.len() as u16,
        seq_num,
        sending_time,
        body,
        rest,
    );
    let s = sent(98, root.len(), seq_num, sending_time, body, rest);
    assert(place::stands(s, 26, root + group));
    lemma_root_reads_back(s, v, exec_inst, triggers, times, aggressor, matches, later);
    let p = 26 + root.len() as int;
    assert(place::stands(s, p, group));
    assert(place::stands(s, p + 1, wire::le_bytes(fees.len() as u16 as nat, 2)));
    assert(place::stands(s, p + 3, fee_bytes(fees)));
    lemma_fees_are_passed(s, p + 3, fee_block as nat, fees);
    let q = p + 3 + fee_bytes(fees).len();
    assert(place::stands(s, q, strings));
    lemma_strings_read_back(s, q, v, secondary, counter);
    assert(decode::execution_report_spec(frame::header_of(s), s)->0 =~= v);
}

/// The optional strings at the end of an ExecutionReport may be missing: what stands
/// before them is decoded all the same, with no error text.
pub proof fn law_execution_report_without_texts(
    seq_num: u32,
    sending_time: i64,
    v: ExecutionReportView,
    exec_inst: u8,
    triggers: Seq<u8>,
    times: Seq<u8>,
    aggressor: u8,
    matches: Seq<u8>,
    later: Seq<u8>,
    fee_block: u8,
)
    requires
        triggers.len() == 33,
        times.len() == 46,
        matches.len() == 101,
        1 <= later.len() <= 60_000,
        v.cl_ord_id.len() <= 255,
        v.orig_cl_ord_id.len() <= 255,
        v.symbol.len() <= 255,
        v.error_text.len() == 0,
    ensures
        ({
            let root = report_root(v, exec_inst, triggers, times, aggressor, matches, later);
            let s = sent(
                98,
                root.len(),
                seq_num,
                sending_time,
                root + (seq![fee_block] + wire::le_bytes(0, 2)) + (wire::var8_bytes(v.cl_ord_id)
                    + wire::var8_bytes(v.orig_cl_ord_id) + wire::var8_bytes(v.symbol)),
                Seq::empty(),
            );
            decode::execution_report_spec(frame::header_of(s), s) == Some(v)
        }),
{
    broadcast use place::group_stands;

    let root = report_root(v, exec_inst, triggers, times, aggressor, matches, later);
    let group = seq![fee_block] + wire::le_bytes(0, 2);
    let strings = wire::var8_bytes(v.cl_ord_id) + wire::var8_bytes(v.orig_cl_ord_id)
        + wire::var8_bytes(v.symbol);
    let body = root + group + strings;
    wire::lemma_le_bytes_len(v.cl_ord_id.len(), 1);
    wire::lemma_le_bytes_len(v.orig_cl_ord_id.len(), 1);
    wire::lemma_le_bytes_len(v.symbol.len(), 1);
    wire::lemma_le_bytes_len(0, 2);
    assert(root.len() == 280 + later.len());
    encode_laws::law_header_fields_stand(
        98,
        root.len() as u16,
        seq_num,
        sending_time,
        body,
        Seq::empty(),
    );
    let s = sent(98, root.len(), seq_num, sending_time, body, Seq::empty());
    assert(place::stands(s, 26, root + group));
    lemma_root_reads_back(s, v, exec_inst, triggers, times, aggressor, matches, later);
    let p = 26 + root.len() as int;
    assert(place::stands(s, p, group));
    assert(place::stands(s, p + 1, wire::le_bytes(0u16 as nat, 2)));
    let q = p + 3;
    assert(place::stands(s, q, strings));
    let p1 = q + 1 + v.cl_ord_id.len();
    let p2 = p1 + 1 + v.orig_cl_ord_id.len();
    assert(place::stands(s, q, wire::var8_bytes(v.cl_ord_id)));
    assert(place::stands(s, p1, wire::var8_bytes(v.orig_cl_ord_id)));
    assert(place::stands(s, p2, wire::var8_bytes(v.symbol)));
    assert(s.len() == p2 + 1 + v.symbol.len());
    assert(v.error_text =~= Seq::empty());
    assert(decode::execution_report_spec(frame::header_of(s), s)->0 =~= v);
}

} // verus!
