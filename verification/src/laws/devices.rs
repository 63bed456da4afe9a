//! What displays declare of themselves, how they are attached, and what switching
//! one does.

use crate::connection::{
    codes_of, inputs_of_kind, DdcRisk, HostOutput, MonitorConnection, SinkInterface,
};
use crate::domain::{
    DisplayInput, MonitorDescriptor, MonitorFingerprint, MonitorResolution, ResolutionSource,
    SwitchMode, SwitchOutcome,
};
use crate::edid::{
    block, block_count, byte_sum, hdmi_block_from, interface_of, keep_larger, larger, largest_from,
    largest_in_blocks, largest_size, no_base_timing_is_larger, no_extension_timing_is_larger,
    preferred, size_at, sound,
};
use crate::error::DisplayMuxError;
use crate::inventory::conflicts;
use crate::lists::{lemma_kept_one, lemma_kept_were_there};
use crate::port::MonitorControl;
use crate::service::{a_target_is_never_guessed, exact_target_of, switch_result};
use crate::settings::SelectedMonitor;
use vstd::prelude::*;

verus! {

/// Whether a timing of this size is declared at byte `at`: its clock is not zero,
/// and the size stands in twelve bits each, the upper four apart.
pub open spec fn declares(bytes: Seq<u8>, at: int, width: int, height: int) -> bool {
    &&& 0 <= at
    &&& at + 18 <= bytes.len()
    &&& bytes[at] != 0 || bytes[at + 1] != 0
    &&& width == bytes[at + 2] + 256 * (bytes[at + 4] as int / 16)
    &&& height == bytes[at + 5] + 256 * (bytes[at + 7] as int / 16)
    &&& width > 0
    &&& height > 0
}

/// Whether byte `at` is where a base timing may stand.
pub open spec fn is_base_place(at: int) -> bool {
    at == 54 || at == 72 || at == 90 || at == 108
}

/// Whether byte `at` of an extension block is where a timing of it may stand: the
/// block is one of video timings, which begin where its third byte says.
pub open spec fn is_extension_place(extension: Seq<u8>, at: int) -> bool {
    &&& extension[0] == 2
    &&& 4 <= extension[2] <= 109
    &&& extension[2] <= at < 127
    &&& (at - extension[2]) % 18 == 0
}

proof fn lemma_declares(bytes: Seq<u8>, at: int, width: int, height: int)
    requires
        0 <= at,
    ensures
        declares(bytes, at, width, height) ==> size_at(bytes, at) is Some && size_at(
            bytes,
            at,
        )->0.width == width && size_at(bytes, at)->0.height == height,
        size_at(bytes, at) matches Some(size) ==> declares(
            bytes,
            at,
            size.width as int,
            size.height as int,
        ),
{
    if at + 18 <= bytes.len() {
        let timing = bytes.subrange(at, at + 18);
        assert(timing[0] == bytes[at] && timing[1] == bytes[at + 1] && timing[2] == bytes[at + 2]
            && timing[4] == bytes[at + 4] && timing[5] == bytes[at + 5] && timing[7] == bytes[at
            + 7]);
    }
}

/// No timing that a display declares has a larger area than the reported size.
pub proof fn the_reported_size_is_the_largest(
    edid: Seq<u8>,
    k: int,
    at: int,
    width: int,
    height: int,
)
    requires
        edid.len() >= 128,
    ensures
        is_base_place(at) && declares(edid, at, width, height) ==> {
            &&& largest_size(edid) is Some
            &&& largest_size(edid)->0.width as int * largest_size(edid)->0.height as int >= width
                * height
        },
        1 <= k && (k + 1) * 128 <= edid.len() && is_extension_place(
            edid.subrange(k * 128, k * 128 + 128),
            at,
        ) && declares(edid.subrange(k * 128, k * 128 + 128), at, width, height) ==> {
            &&& largest_size(edid) is Some
            &&& largest_size(edid)->0.width as int * largest_size(edid)->0.height as int >= width
                * height
        },
{
    if is_base_place(at) && declares(edid, at, width, height) {
        lemma_declares(edid, at, width, height);
        no_base_timing_is_larger(edid, at);
    }
    if 1 <= k && (k + 1) * 128 <= edid.len() {
        let extension = edid.subrange(k * 128, k * 128 + 128);
        assert(extension == block(edid, k));
        assert(k < block_count(edid)) by (nonlinear_arith)
            requires
                (k + 1) * 128 <= edid.len(),
                block_count(edid) == edid.len() as int / 128,
        ;
        if is_extension_place(extension, at) && declares(extension, at, width, height) {
            lemma_declares(extension, at, width, height);
            no_extension_timing_is_larger(edid, k, at);
        }
    }
}

/// Whether a size is declared somewhere in an EDID of which `blocks` blocks are
/// looked at.
pub open spec fn is_declared(edid: Seq<u8>, blocks: int, size: MonitorResolution) -> bool {
    ||| exists|at: int|
        is_base_place(at) && #[trigger] declares(edid, at, size.width as int, size.height as int)
    ||| exists|k: int, at: int|
        1 <= k < blocks && is_extension_place(#[trigger] block(edid, k), at) && #[trigger] declares(
            block(edid, k),
            at,
            size.width as int,
            size.height as int,
        )
}

proof fn lemma_from_is_declared(
    extension: Seq<u8>,
    offset: int,
    best: Option<MonitorResolution>,
)
    requires
        extension.len() == 128,
        extension[0] == 2,
        4 <= extension[2] <= 109,
        offset >= extension[2],
        (offset - extension[2]) % 18 == 0,
    ensures
        largest_from(extension, offset, best) == best || (largest_from(
            extension,
            offset,
            best,
        ) is Some && exists|at: int|
            is_extension_place(extension, at) && #[trigger] declares(
                extension,
                at,
                largest_from(extension, offset, best)->0.width as int,
                largest_from(extension, offset, best)->0.height as int,
            )),
    decreases 145 - offset,
{
    if offset < 127 {
        let next = keep_larger(best, size_at(extension, offset));
        lemma_from_is_declared(extension, offset + 18, next);
        if next != best {
            lemma_declares(extension, offset, 0, 0);
            assert(declares(
                extension,
                offset,
                next->0.width as int,
                next->0.height as int,
            ));
        }
    }
}

proof fn lemma_blocks_are_declared(edid: Seq<u8>, blocks: int)
    requires
        edid.len() >= 128,
        blocks <= block_count(edid),
    ensures
        largest_in_blocks(edid, blocks) matches Some(size) ==> is_declared(edid, blocks, size),
    decreases blocks,
{
    if blocks <= 1 {
        lemma_declares(edid, 54, 0, 0);
        lemma_declares(edid, 72, 0, 0);
        lemma_declares(edid, 90, 0, 0);
        lemma_declares(edid, 108, 0, 0);
        if let Some(size) = largest_in_blocks(edid, blocks) {
            let (w, h) = (size.width as int, size.height as int);
            assert(declares(edid, 54, w, h) || declares(edid, 72, w, h) || declares(edid, 90, w, h)
                || declares(edid, 108, w, h));
        }
    } else {
        let before = largest_in_blocks(edid, blocks - 1);
        let last = block(edid, blocks - 1);
        lemma_blocks_are_declared(edid, blocks - 1);
        assert(last.len() == 128) by (nonlinear_arith)
            requires
                2 <= blocks <= edid.len() as int / 128,
                last == edid.subrange((blocks - 1) * 128, (blocks - 1) * 128 + 128),
        ;
        if last[0] == 2 && 4 <= last[2] <= 109 {
            lemma_from_is_declared(last, last[2] as int, before);
        }
        if let Some(size) = largest_in_blocks(edid, blocks) {
            let (w, h) = (size.width as int, size.height as int);
            if before == Some(size) {
                assert(is_declared(edid, blocks - 1, size));
                if !(exists|at: int| is_base_place(at) && #[trigger] declares(edid, at, w, h)) {
                    let (k, at) = choose|k: int, at: int|
                        1 <= k < blocks - 1 && is_extension_place(#[trigger] block(edid, k), at)
                            && #[trigger] declares(block(edid, k), at, w, h);
                    assert(is_extension_place(block(edid, k), at) && declares(
                        block(edid, k),
                        at,
                        w,
                        h,
                    ));
                }
            } else {
                let at = choose|at: int|
                    is_extension_place(last, at) && #[trigger] declares(last, at, w, h);
                assert(is_extension_place(block(edid, blocks - 1), at) && declares(
                    block(edid, blocks - 1),
                    at,
                    w,
                    h,
                ));
            }
        }
    }
}

/// The reported size is one that the display declares.
pub proof fn the_reported_size_is_declared(edid: Seq<u8>)
    requires
        edid.len() >= 128,
    ensures
        largest_size(edid) matches Some(size) ==> is_declared(edid, block_count(edid), size),
{
    lemma_blocks_are_declared(edid, block_count(edid));
}

/// What a sound EDID declares is reported before the mode of the platform, and
/// each with where it was read.
pub proof fn the_declared_size_comes_first(
    edid: Option<Seq<u8>>,
    mode: Option<MonitorResolution>,
)
    ensures
        edid is Some && sound(edid->0) && largest_size(edid->0) is Some ==> preferred(edid, mode).0
            == largest_size(edid->0) && preferred(edid, mode).1 == Some(ResolutionSource::Edid),
        edid is None || !sound(edid->0) || largest_size(edid->0) is None ==> preferred(edid, mode).0
            == mode && preferred(edid, mode).1 != Some(ResolutionSource::Edid) && (preferred(
            edid,
            mode,
        ).1 is Some <==> mode is Some),
{
}

proof fn lemma_byte_sum(bytes: Seq<u8>, i: int, b: u8)
    requires
        0 <= i < bytes.len(),
    ensures
        byte_sum(bytes.update(i, b)) == byte_sum(bytes) - bytes[i] + b,
    decreases bytes.len(),
{
    let changed = bytes.update(i, b);
    if i == bytes.len() - 1 {
        assert(changed.drop_last() =~= bytes.drop_last());
    } else {
        lemma_byte_sum(bytes.drop_last(), i, b);
        assert(changed.drop_last() =~= bytes.drop_last().update(i, b));
    }
}

/// One byte that is not as it was sent is noticed, wherever it stands in the
/// blocks that the EDID claims to have.
pub proof fn a_damaged_byte_is_noticed(edid: Seq<u8>, i: int, b: u8)
    requires
        sound(edid),
        0 <= i < (edid[126] + 1) * 128,
        b != edid[i],
    ensures
        !sound(edid.update(i, b)),
{
    let changed = edid.update(i, b);
    let k = i / 128;
    let was = block(edid, k);
    let is = block(changed, k);
    assert(0 <= k <= edid[126] && k * 128 <= i < k * 128 + 128) by (nonlinear_arith)
        requires
            0 <= i < (edid[126] + 1) * 128,
            k == i / 128,
    ;
    assert(k * 128 + 128 <= edid.len()) by (nonlinear_arith)
        requires
            (edid[126] + 1) * 128 <= edid.len(),
            k <= edid[126],
    ;
    assert(is =~= was.update(i - k * 128, b));
    lemma_byte_sum(was, i - k * 128, b);
    assert(byte_sum(was) % 256 == 0);
    assert(byte_sum(is) % 256 != 0) by {
        let d = b as int - edid[i] as int;
        assert(byte_sum(is) == byte_sum(was) + d);
        assert(-256 < d < 256 && d != 0);
    }
    if sound(changed) {
        if i == 126 {
            assert(k == 0);
        }
        assert(0 <= k <= changed[126]);
        assert(byte_sum(block(changed, k)) % 256 == 0);
    }
}

/// An analog display is on VGA; a digital one of the revision that names its
/// interface is on the one that it names, and one that names none is on HDMI where
/// it carries a block of HDMI.
pub proof fn a_display_is_on_the_interface_it_declares(edid: Seq<u8>)
    requires
        sound(edid),
    ensures
        edid[20] < 0x80 ==> interface_of(edid) == Some(SinkInterface::Vga),
        edid[20] >= 0x80 ==> interface_of(edid) != Some(SinkInterface::Vga),
        edid[20] >= 0x80 && edid[19] >= 4 && edid[20] % 16 == 5 ==> interface_of(edid) == Some(
            SinkInterface::DisplayPort,
        ),
        interface_of(edid) == Some(SinkInterface::DisplayPort) ==> edid[19] >= 4 && edid[20] % 16
            == 5,
        edid[20] >= 0x80 && edid[19] >= 4 && (edid[20] % 16 == 2 || edid[20] % 16 == 3)
            ==> interface_of(edid) == Some(SinkInterface::Hdmi),
        interface_of(edid) == Some(SinkInterface::Dvi) ==> edid[19] >= 4 && edid[20] % 16 == 1,
        edid[20] >= 0x80 && edid[19] < 4 ==> interface_of(edid) == Some(SinkInterface::Hdmi)
            || interface_of(edid) == Some(SinkInterface::UnknownDigital),
{
}

/// A display of an earlier revision whose first extension begins with a vendor
/// block of HDMI is on HDMI.
pub proof fn a_vendor_block_of_hdmi_is_recognized(edid: Seq<u8>)
    requires
        sound(edid),
        edid.len() >= 256,
        edid[20] >= 0x80,
        edid[19] < 4,
        edid[128] == 2,
        5 <= edid[130] <= 127,
        edid[132] as int / 32 == 3,
        edid[132] as int % 32 >= 3,
        edid[133] == 0x03 && edid[134] == 0x0c && edid[135] == 0x00 || edid[133] == 0xd8
            && edid[134] == 0x5d && edid[135] == 0xc4,
    ensures
        interface_of(edid) == Some(SinkInterface::Hdmi),
{
    let extension = block(edid, 1);
    assert(extension[0] == edid[128] && extension[2] == edid[130] && extension[4] == edid[132]);
    let length = edid[132] as int % 32;
    let payload = extension.subrange(5, 5 + length);
    assert(payload[0] == edid[133] && payload[1] == edid[134] && payload[2] == edid[135]);
    assert(crate::edid::has_hdmi_oui(payload)) by {
        if edid[133] == 0x03 {
            assert(payload.take(3) =~= seq![0x03u8, 0x0c, 0x00]);
        } else {
            assert(payload.take(3) =~= seq![0xd8u8, 0x5d, 0xc4]);
        }
    }
    assert(hdmi_block_from(extension, 4, crate::edid::data_blocks_end(extension)));
    assert(crate::edid::names_hdmi(block(edid, 1)));
}

/// Whether a host output and a display input carry one kind of signal.
pub open spec fn are_one_signal(host: HostOutput, sink: SinkInterface) -> bool {
    match sink {
        SinkInterface::DisplayPort => host == HostOutput::DisplayPort || host == HostOutput::UsbC
            || host == HostOutput::Thunderbolt,
        SinkInterface::Hdmi => host == HostOutput::Hdmi || host == HostOutput::Dvi,
        SinkInterface::Dvi => host == HostOutput::Hdmi || host == HostOutput::Dvi,
        SinkInterface::Vga => host == HostOutput::Vga,
        SinkInterface::UnknownDigital => false,
    }
}

/// A connection is at risk where the signal is converted, has no channel where the
/// picture is sent by software, and is judged only where both ends are known.
pub proof fn a_connection_is_at_risk_where_its_signal_is_converted(
    host: Option<HostOutput>,
    port: Option<String>,
    sink: Option<SinkInterface>,
    usb: bool,
)
    ensures
        ({
            let connection = MonitorConnection::classified(host, port, sink, usb);
            let known = host is Some && sink is Some && sink != Some(
                SinkInterface::UnknownDigital,
            ) && host != Some(HostOutput::Indirect);
            &&& connection.host_output == host && connection.sink_interface == sink
            &&& connection.shares_usb_data == usb && connection.host_port == port
            &&& host == Some(HostOutput::Indirect) <==> connection.ddc_risk == Some(
                DdcRisk::Unsupported,
            )
            &&& known && are_one_signal(host->0, sink->0) ==> connection.ddc_risk == Some(
                DdcRisk::Low,
            ) && !connection.signal_conversion
            &&& known && !are_one_signal(host->0, sink->0) ==> connection.ddc_risk == Some(
                DdcRisk::Elevated,
            ) && connection.signal_conversion
            &&& !known && host != Some(HostOutput::Indirect) ==> connection.ddc_risk is None
                && !connection.signal_conversion
        }),
{
}

/// Whether a standard code is of an interface.
pub open spec fn is_code_of(code: u32, sink: SinkInterface) -> bool {
    match sink {
        SinkInterface::Vga => code == 1 || code == 2,
        SinkInterface::Dvi => code == 3 || code == 4,
        SinkInterface::DisplayPort => code == 15 || code == 16,
        SinkInterface::Hdmi => code == 17 || code == 18,
        SinkInterface::UnknownDigital => false,
    }
}

/// The input recorded for this computer contradicts its connection exactly where
/// it is a standard one of another interface than the display declared.
pub proof fn an_input_of_another_interface_contradicts_the_connection(
    selected: SelectedMonitor,
    connection: MonitorConnection,
    sink: SinkInterface,
)
    requires
        connection.sink_interface == Some(sink),
    ensures
        conflicts(selected, Some(connection)) <==> {
            &&& !selected.vendor_indexed_inputs
            &&& selected.local_input is Some
            &&& sink != SinkInterface::UnknownDigital
            &&& !is_code_of(selected.local_input->0.code, sink)
            &&& exists|other: SinkInterface| #[trigger]
                is_code_of(selected.local_input->0.code, other)
        },
        !conflicts(selected, None),
{
    if let Some(input) = selected.local_input {
        let code = input.code;
        assert(is_code_of(code, SinkInterface::Vga) || is_code_of(code, SinkInterface::Dvi)
            || is_code_of(code, SinkInterface::DisplayPort) || is_code_of(
            code,
            SinkInterface::Hdmi,
        ) <==> crate::connection::is_standard_video_input(code));
        assert(codes_of(sink).contains(code) <==> is_code_of(code, sink));
    }
}

/// The inputs of an interface among those available are those of its codes.
pub proof fn candidate_inputs_are_of_the_interface(
    sink: SinkInterface,
    available: Seq<DisplayInput>,
    i: int,
)
    requires
        0 <= i < available.len(),
    ensures
        is_code_of(available[i].code, sink) <==> inputs_of_kind(sink, available).contains(
            available[i],
        ),
{
    let keep = |input: DisplayInput| codes_of(sink).contains(input.code);
    lemma_kept_were_there(available, keep);
    assert(codes_of(sink).contains(available[i].code) <==> is_code_of(available[i].code, sink));
    if keep(available[i]) {
        available.lemma_filter_contains(keep, i);
    }
    if inputs_of_kind(sink, available).contains(available[i]) {
        let kept = available.filter(keep);
        let n = choose|n: int| 0 <= n < kept.len() && kept[n] == available[i];
        assert(keep(kept[n]));
    }
}

/// A switch that is reported as done was written to the only display of exactly the
/// wanted identity, and for the requested input; and a dry run reports none.
pub proof fn a_switch_is_written_to_the_wanted_display<C: MonitorControl>(
    controller: &C,
    wanted: MonitorFingerprint,
    requested: DisplayInput,
    mode: SwitchMode,
    listed: Result<Vec<MonitorDescriptor>, DisplayMuxError>,
    read: Result<DisplayInput, DisplayMuxError>,
    written: Result<(), DisplayMuxError>,
    result: Result<SwitchOutcome, DisplayMuxError>,
)
    requires
        switch_result(controller, wanted, requested, mode, listed, read, written, result),
    ensures
        result matches Ok(SwitchOutcome::Switched { target, previous, selected }) ==> {
            &&& target.fingerprint@ == wanted@
            &&& listed is Ok && listed->Ok_0@.contains(target)
            &&& read == Ok::<DisplayInput, DisplayMuxError>(previous)
            &&& selected == requested
            &&& previous != requested
            &&& mode == SwitchMode::Apply
            &&& written is Ok
            &&& call_ensures(C::write_input, (controller, &target.id, requested), written)
        },
        result matches Ok(SwitchOutcome::AlreadySelected { target, input }) ==> {
            &&& target.fingerprint@ == wanted@
            &&& input == requested
            &&& read == Ok::<DisplayInput, DisplayMuxError>(requested)
        },
        result matches Ok(SwitchOutcome::DryRun { target, current, requested: asked }) ==> {
            &&& target.fingerprint@ == wanted@
            &&& read == Ok::<DisplayInput, DisplayMuxError>(current)
            &&& asked == requested
            &&& mode == SwitchMode::DryRun
        },
        mode == SwitchMode::DryRun && result is Ok ==> result->Ok_0 is DryRun,
        mode == SwitchMode::Apply && read is Ok && read->Ok_0 != requested && written is Ok
            && result is Ok ==> result->Ok_0 is Switched,
{
    if let Ok(monitors) = listed {
        if let Ok(target) = exact_target_of(monitors@, wanted) {
            a_target_is_never_guessed(monitors@, wanted, target);
        }
    }
}

/// A display is switched exactly where it is the only one of the wanted identity;
/// without one, and with several, that is said.
pub proof fn a_switch_needs_exactly_one_display(
    monitors: Seq<MonitorDescriptor>,
    wanted: MonitorFingerprint,
    i: int,
    j: int,
)
    requires
        0 <= i < monitors.len(),
        monitors[i].fingerprint@ == wanted@,
    ensures
        (forall|k: int|
            0 <= k < monitors.len() && k != i ==> (#[trigger] monitors[k]).fingerprint@ != wanted@)
            ==> exact_target_of(monitors, wanted) == Ok::<MonitorDescriptor, DisplayMuxError>(
            monitors[i],
        ),
        0 <= j < monitors.len() && j != i && monitors[j].fingerprint@ == wanted@
            ==> exact_target_of(monitors, wanted) is Err && exact_target_of(
            monitors,
            wanted,
        )->Err_0 is AmbiguousTarget,
{
    let keep = |monitor: MonitorDescriptor| monitor.fingerprint@ == wanted@;
    let kept = crate::service::exact_matches(monitors, wanted);
    assert(kept == monitors.filter(keep));
    monitors.lemma_filter_contains(keep, i);
    lemma_kept_were_there(monitors, keep);
    assert(kept.len() >= 1);
    if let Ok(target) = exact_target_of(monitors, wanted) {
        a_target_is_never_guessed(monitors, wanted, target);
    }
    if forall|k: int|
        0 <= k < monitors.len() && k != i ==> (#[trigger] monitors[k]).fingerprint@ != wanted@ {
        lemma_kept_one(monitors, keep);
        assert(keep(monitors[i]));
    }
}

} // verus!
