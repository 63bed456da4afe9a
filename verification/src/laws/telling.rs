//! What the user is told names what it is about.

use crate::dashboard::{is_status_of, SharedDisplayState, SharedMonitorStatus};
use crate::domain::{DisplayInput, SwitchOutcome};
use crate::error::DisplayMuxError;
use crate::inventory::MonitorInventory;
use crate::laws::dashboard::the_host_shown_is_called_by_its_name;
use crate::laws::naming::{is_annotated, is_called, is_nameless};
use crate::laws::setup::a_note_is_shown_before_the_name;
use crate::laws::is_host_of;
use crate::locale::{input_label_of, UiLocale};
use crate::routes::{outcome_note, PeerRouteOutcome};
use crate::settings::{AppSettings, SelectedMonitor};
use crate::switching::{
    both_failed, input_called, is_switch_step, outcome_detail, NetworkPreparation, SwitchEvent,
    SwitchPlan, SwitchState,
};
use crate::text::decimal;
use vstd::prelude::*;

verus! {

/// Whether a text holds another one.
pub open spec fn mentions(text: Seq<char>, part: Seq<char>) -> bool {
    exists|i: int| is_part_at(text, part, i)
}

/// Whether a text holds another one from place `i` on.
pub open spec fn is_part_at(text: Seq<char>, part: Seq<char>, i: int) -> bool {
    0 <= i && i + part.len() <= text.len() && text.subrange(i, i + part.len()) =~= part
}

proof fn lemma_mentions(before: Seq<char>, part: Seq<char>, after: Seq<char>)
    ensures
        mentions(before + part + after, part),
{
    assert(is_part_at(before + part + after, part, before.len() as int));
}

proof fn lemma_still_mentions(before: Seq<char>, text: Seq<char>, after: Seq<char>, part: Seq<char>)
    requires
        mentions(text, part),
    ensures
        mentions(before + text + after, part),
{
    let i = choose|i: int| is_part_at(text, part, i);
    let whole = before + text + after;
    assert(whole.subrange(before.len() + i, before.len() + i + part.len()) =~= text.subrange(
        i,
        i + part.len(),
    ));
    assert(is_part_at(whole, part, before.len() + i));
}

/// What is said of a shared display names it and, where it shows another host, that
/// host as the user calls it.
pub proof fn a_status_names_the_display_and_the_host(
    status: SharedMonitorStatus,
    locale: UiLocale,
    settings: AppSettings,
    inventory: MonitorInventory,
    selected: SelectedMonitor,
    p: int,
    name: Seq<char>,
)
    requires
        is_status_of(status, locale, settings, inventory, selected),
    ensures
        mentions(status.status_text@, selected.name@),
        status.display_state == SharedDisplayState::OnOtherHost && selected.active_route is Some
            && is_host_of(settings.peers@, selected.active_route->0@, p) ==> {
            &&& is_called(settings.host_aliases@, settings.peers@[p].id@, name) ==> mentions(
                status.status_text@,
                name,
            )
            &&& is_nameless(settings.host_aliases@, settings.peers@[p].id@) ==> mentions(
                status.status_text@,
                settings.peers@[p].name@,
            )
        },
{
    let text = status.status_text@;
    let display = selected.name@;
    let none = Seq::<char>::empty();
    let shown = crate::dashboard::showing_host_of(settings, selected);
    let host = match shown {
        Some(found) => found,
        None => crate::locale::text_in(locale, "另一台主機"@, "another host"@),
    };
    let (zh, zh_end) = (" 目前顯示 "@, "；顯示其他主機時，這台螢幕不回應這台電腦的 DDC/CI"@);
    let (en, en_end) = (
        " is showing "@,
        ". While it shows another host, it does not answer this computer's DDC/CI"@,
    );
    match (status.display_state, locale) {
        (SharedDisplayState::OnOtherHost, UiLocale::TraditionalChinese) => {
            assert(text =~= none + display + (zh + host + zh_end));
            assert(text =~= (display + zh) + host + zh_end);
            lemma_mentions(none, display, zh + host + zh_end);
            lemma_mentions(display + zh, host, zh_end);
        },
        (SharedDisplayState::OnOtherHost, UiLocale::English) => {
            assert(text =~= none + display + (en + host + en_end));
            assert(text =~= (display + en) + host + en_end);
            lemma_mentions(none, display, en + host + en_end);
            lemma_mentions(display + en, host, en_end);
        },
        (SharedDisplayState::Ready, UiLocale::TraditionalChinese) => {
            assert(text =~= "已鎖定共用螢幕："@ + display + none);
            lemma_mentions("已鎖定共用螢幕："@, display, none);
        },
        (SharedDisplayState::Ready, UiLocale::English) => {
            assert(text =~= "Shared display locked: "@ + display + none);
            lemma_mentions("Shared display locked: "@, display, none);
        },
        (SharedDisplayState::Unavailable, UiLocale::TraditionalChinese) => {
            let found = "已偵測到 "@;
            let end = "，但目前無法讀取 DDC/CI 輸入"@;
            let lost = "找不到先前選擇的共用螢幕："@;
            lemma_mentions(found, display, end);
            lemma_mentions(lost, display, none);
            assert(lost + display + none =~= lost + display);
        },
        (SharedDisplayState::Unavailable, UiLocale::English) => {
            let end = " was detected, but its DDC/CI input cannot be read"@;
            let lost = "Previously selected shared display was not found: "@;
            lemma_mentions(none, display, end);
            assert(none + display + end =~= display + end);
            lemma_mentions(lost, display, none);
            assert(lost + display + none =~= lost + display);
        },
    }
    if status.display_state == SharedDisplayState::OnOtherHost && selected.active_route is Some
        && is_host_of(settings.peers@, selected.active_route->0@, p) {
        the_host_shown_is_called_by_its_name(settings, selected, p, name);
    }
}

/// Once a switch is done the user is told the display and the input that it shows
/// now: with the user's note for that input of that display, where there is one.
/// Where a paired host did it, the host is named.
pub proof fn a_finished_switch_is_told_with_what_it_did(
    locale: UiLocale,
    settings: AppSettings,
    plan: SwitchPlan,
    target_id: Seq<char>,
    preparation: NetworkPreparation,
    before: SwitchState,
    event: SwitchEvent,
    after: SwitchState,
    note: Seq<char>,
)
    requires
        is_switch_step(locale, settings, plan, target_id, preparation, before, event, after),
        after is Switched,
        !(before is Switched),
        plan.monitor < settings.shared_monitors@.len(),
    ensures
        ({
            let selected = settings.shared_monitors@[plan.monitor as int];
            let told = after->Switched_0;
            &&& before is SwitchingHere ==> event is TriedHere && event->TriedHere_0 is Ok && match
            event->TriedHere_0->Ok_0 {
                SwitchOutcome::Switched { target, previous, selected: input } => {
                    &&& mentions(told.detail@, target.name@)
                    &&& is_annotated(
                        settings.input_labels@,
                        selected.fingerprint@,
                        input,
                        note,
                    ) ==> mentions(told.detail@, note)
                    &&& selected.vendor_indexed_inputs ==> mentions(
                        told.detail@,
                        decimal(input.code as nat),
                    )
                },
                SwitchOutcome::AlreadySelected { target, input } => {
                    &&& mentions(told.detail@, target.name@)
                    &&& is_annotated(
                        settings.input_labels@,
                        selected.fingerprint@,
                        input,
                        note,
                    ) ==> mentions(told.detail@, note)
                },
                SwitchOutcome::DryRun { .. } => true,
            }
            &&& before is AskingPeer ==> {
                let executor = settings.peers@[before->AskingPeer_executor as int];
                &&& mentions(told.title@, executor.name@)
                &&& is_annotated(
                    settings.input_labels@,
                    selected.fingerprint@,
                    plan.input,
                    note,
                ) ==> mentions(told.detail@, note)
                &&& selected.vendor_indexed_inputs ==> mentions(
                    told.detail@,
                    decimal(plan.input.code as nat),
                )
            }
        }),
{
    let selected = settings.shared_monitors@[plan.monitor as int];
    let told = after->Switched_0;
    let none = Seq::<char>::empty();
    if before is SwitchingHere {
        let outcome = event->TriedHere_0->Ok_0;
        let (x, y) = crate::switching::inputs_spoken_of(outcome);
        let first = input_called(locale, settings, selected, x);
        let second = input_called(locale, settings, selected, y);
        let detail = outcome_detail(locale, outcome, first, second);
        let end = crate::switching::unconfirmed_note(locale, preparation);
        match outcome {
            SwitchOutcome::Switched { target, previous, selected: input } => {
                let (from, to, stop) = match locale {
                    UiLocale::TraditionalChinese => (" 已由 "@, " 切換至 "@, "。"@),
                    UiLocale::English => (" switched from "@, " to "@, "."@),
                };
                let rest = from + first + to + second + stop;
                assert(detail + end =~= none + target.name@ + (rest + end));
                lemma_mentions(none, target.name@, rest + end);
                assert(detail + end =~= (target.name@ + from + first + to) + second + (stop + end));
                lemma_input_called(locale, settings, selected, input, note);
                if is_annotated(settings.input_labels@, selected.fingerprint@, input, note) {
                    lemma_still_mentions(
                        target.name@ + from + first + to,
                        second,
                        stop + end,
                        note,
                    );
                }
                if selected.vendor_indexed_inputs {
                    lemma_still_mentions(
                        target.name@ + from + first + to,
                        second,
                        stop + end,
                        decimal(input.code as nat),
                    );
                }
            },
            SwitchOutcome::AlreadySelected { target, input } => {
                let (on, stop) = match locale {
                    UiLocale::TraditionalChinese => (" 已使用 "@, "。"@),
                    UiLocale::English => (" is already using "@, "."@),
                };
                let rest = on + first + stop;
                assert(detail + end =~= none + target.name@ + (rest + end));
                lemma_mentions(none, target.name@, rest + end);
                assert(detail + end =~= (target.name@ + on) + first + (stop + end));
                lemma_input_called(locale, settings, selected, input, note);
                if is_annotated(settings.input_labels@, selected.fingerprint@, input, note) {
                    lemma_still_mentions(target.name@ + on, first, stop + end, note);
                }
            },
            SwitchOutcome::DryRun { .. } => {},
        }
    }
    if before is AskingPeer {
        let name = settings.peers@[before->AskingPeer_executor as int].name@;
        let label = input_called(locale, settings, selected, plan.input);
        lemma_input_called(locale, settings, selected, plan.input, note);
        let (head, tail, start, stop) = match locale {
            UiLocale::TraditionalChinese => ("已由 "@, " 執行切換"@, "遠端主機已切換至 "@, "。"@),
            UiLocale::English => ("Switch performed by "@, none, "The remote host switched to "@, "."@),
        };
        assert(told.title@ =~= head + name + tail);
        lemma_mentions(head, name, tail);
        assert(told.detail@ =~= start + label + stop);
        if is_annotated(settings.input_labels@, selected.fingerprint@, plan.input, note) {
            lemma_still_mentions(start, label, stop, note);
        }
        if selected.vendor_indexed_inputs {
            lemma_still_mentions(start, label, stop, decimal(plan.input.code as nat));
        }
    }
}

proof fn lemma_input_called(
    locale: UiLocale,
    settings: AppSettings,
    selected: SelectedMonitor,
    input: DisplayInput,
    note: Seq<char>,
)
    ensures
        is_annotated(settings.input_labels@, selected.fingerprint@, input, note) ==> mentions(
            input_called(locale, settings, selected, input),
            note,
        ),
        selected.vendor_indexed_inputs ==> mentions(
            input_called(locale, settings, selected, input),
            decimal(input.code as nat),
        ),
{
    let label = input_called(locale, settings, selected, input);
    let none = Seq::<char>::empty();
    if is_annotated(settings.input_labels@, selected.fingerprint@, input, note) {
        a_note_is_shown_before_the_name(
            locale,
            settings,
            selected.fingerprint@,
            selected.vendor_indexed_inputs,
            input,
            note,
        );
        assert(is_part_at(label, note, 0));
    }
    if selected.vendor_indexed_inputs {
        let base = input_label_of(locale, true, input);
        let word = crate::locale::text_in(locale, "輸入 "@, "Input "@);
        let number = decimal(input.code as nat);
        assert(base =~= word + number + none);
        lemma_mentions(word, number, none);
        match crate::input_label::label_of(settings.input_labels@, selected.fingerprint@, input) {
            Some(text) => {
                let (open, close) = match locale {
                    UiLocale::TraditionalChinese => ("（"@, "）"@),
                    UiLocale::English => (" ("@, ")"@),
                };
                assert(label =~= (text + open) + base + close);
                lemma_still_mentions(text + open, base, close, number);
            },
            None => {},
        }
    }
}

/// Where neither this computer nor the paired host could switch, both of their
/// reasons are told, and who the host was.
pub proof fn a_failed_switch_is_told_with_every_reason(
    locale: UiLocale,
    executor_name: Seq<char>,
    local_error: Seq<char>,
    remote_error: Seq<char>,
)
    ensures
        mentions(both_failed(locale, executor_name, local_error, remote_error), executor_name),
        mentions(both_failed(locale, executor_name, local_error, remote_error), local_error),
        mentions(both_failed(locale, executor_name, local_error, remote_error), remote_error),
{
    let text = both_failed(locale, executor_name, local_error, remote_error);
    let none = Seq::<char>::empty();
    let (a, b, c) = match locale {
        UiLocale::TraditionalChinese => ("本機與 "@, " 都無法切換。本機："@, "；遠端："@),
        UiLocale::English => ("Neither this computer nor "@, " could switch. Local: "@, "; remote: "@),
    };
    assert(text =~= a + executor_name + (b + local_error + c + remote_error));
    lemma_mentions(a, executor_name, b + local_error + c + remote_error);
    assert(text =~= (a + executor_name + b) + local_error + (c + remote_error));
    lemma_mentions(a + executor_name + b, local_error, c + remote_error);
    assert(text =~= (a + executor_name + b + local_error + c) + remote_error + none);
    lemma_mentions(a + executor_name + b + local_error + c, remote_error, none);
}

/// A display that counts its own inputs has a different name for each.
pub proof fn counted_inputs_are_told_apart(locale: UiLocale, a: DisplayInput, b: DisplayInput)
    requires
        input_label_of(locale, true, a) == input_label_of(locale, true, b),
    ensures
        a == b,
{
    let word = crate::locale::text_in(locale, "輸入 "@, "Input "@);
    let x = decimal(a.code as nat);
    let y = decimal(b.code as nat);
    let whole = word + x;
    assert(whole.skip(word.len() as int) =~= x);
    assert((word + y).skip(word.len() as int) =~= y);
    crate::text::decimal_is_injective(a.code as nat, b.code as nat);
}

/// What is said of an error holds what it is about.
pub proof fn an_error_is_told_with_its_details(error: DisplayMuxError, chinese: bool)
    ensures
        match error {
            DisplayMuxError::Backend(detail) => mentions(error.message(chinese), detail@),
            DisplayMuxError::InvalidInput(value) => mentions(
                error.message(chinese),
                decimal(value as nat),
            ),
            DisplayMuxError::InvalidMacAddress(text) => mentions(error.message(chinese), text@),
            DisplayMuxError::WakeFailed(detail) => mentions(error.message(chinese), detail@),
            DisplayMuxError::PeerUnavailable(detail) => mentions(error.message(chinese), detail@),
            DisplayMuxError::MonitorNoLongerAvailable(id) => mentions(
                error.message(chinese),
                id@,
            ),
            DisplayMuxError::AmbiguousTarget { count } => mentions(
                error.message(chinese),
                decimal(count as nat),
            ),
            _ => true,
        },
{
    let text = error.message(chinese);
    let none = Seq::<char>::empty();
    let part = match error {
        DisplayMuxError::Backend(detail) => detail@,
        DisplayMuxError::InvalidInput(value) => decimal(value as nat),
        DisplayMuxError::InvalidMacAddress(found) => found@,
        DisplayMuxError::WakeFailed(detail) => detail@,
        DisplayMuxError::PeerUnavailable(detail) => detail@,
        DisplayMuxError::MonitorNoLongerAvailable(id) => id@,
        DisplayMuxError::AmbiguousTarget { count } => decimal(count as nat),
        _ => none,
    };
    let head = match error {
        DisplayMuxError::InvalidInput(_) => if chinese {
            "無效的輸入來源："@
        } else {
            "Invalid display input: "@
        },
        DisplayMuxError::InvalidMacAddress(_) => if chinese {
            "無效的 MAC 位址："@
        } else {
            "Invalid MAC address: "@
        },
        DisplayMuxError::WakeFailed(_) => if chinese {
            "無法喚醒主機："@
        } else {
            "Unable to wake the host: "@
        },
        DisplayMuxError::MonitorNoLongerAvailable(_) => if chinese {
            "螢幕已不存在："@
        } else {
            "The display is no longer available: "@
        },
        DisplayMuxError::AmbiguousTarget { .. } => if chinese {
            "有 "@
        } else {
            none
        },
        _ => none,
    };
    let tail = match error {
        DisplayMuxError::AmbiguousTarget { .. } => if chinese {
            " 台螢幕符合共用螢幕"@
        } else {
            " displays match the shared display"@
        },
        _ => none,
    };
    lemma_mentions(head, part, tail);
    if error is Backend || error is InvalidInput || error is InvalidMacAddress
        || error is WakeFailed || error is PeerUnavailable || error is MonitorNoLongerAvailable
        || error is AmbiguousTarget {
        assert(text =~= head + part + tail);
    }
}

/// What is said of a reported input names the display that it is about and the
/// input, wherever the report is about a display that is shared here.
pub proof fn a_report_is_told_with_its_display_and_input(
    locale: UiLocale,
    outcome: PeerRouteOutcome,
    monitor: Seq<char>,
    label: Seq<char>,
)
    requires
        outcome != PeerRouteOutcome::UnknownMonitor,
        outcome != PeerRouteOutcome::UnknownPeer,
    ensures
        mentions(outcome_note(locale, outcome, monitor, label), monitor),
        mentions(outcome_note(locale, outcome, monitor, label), label),
{
    let text = outcome_note(locale, outcome, monitor, label);
    let none = Seq::<char>::empty();
    if outcome == PeerRouteOutcome::Taken && locale == UiLocale::English {
        let on = " on "@;
        let end = " is already assigned to another host. Check that the hosts use different ports, or switch to this host and retry."@;
        assert(text =~= none + label + (on + monitor + end));
        lemma_mentions(none, label, on + monitor + end);
        assert(text =~= (label + on) + monitor + end);
        lemma_mentions(label + on, monitor, end);
    } else {
        let (mid, end) = match (outcome, locale) {
            (PeerRouteOutcome::Applied, UiLocale::TraditionalChinese) => (" 已帶入 "@, "。"@),
            (PeerRouteOutcome::Applied, UiLocale::English) => (" set to "@, "."@),
            (PeerRouteOutcome::Unchanged, UiLocale::TraditionalChinese) => (" 已經是 "@, "。"@),
            (PeerRouteOutcome::Unchanged, UiLocale::English) => (" was already "@, "."@),
            (PeerRouteOutcome::Kept, UiLocale::TraditionalChinese) => (
                " 回報 "@,
                "，但這台主機目前不在螢幕上，讀到的可能是別台，因此保留原本的設定。"@,
            ),
            (PeerRouteOutcome::Kept, UiLocale::English) => (
                " reported "@,
                ", but that host is not on screen so the reading may be another host's; the current setting was kept."@,
            ),
            (PeerRouteOutcome::Unsupported, UiLocale::TraditionalChinese) => (
                " 沒有 "@,
                " 這個輸入。"@,
            ),
            (PeerRouteOutcome::Unsupported, UiLocale::English) => (" has no "@, " input."@),
            _ => (
                " 的 "@,
                " 已指派給其他主機；請確認兩台主機接在不同的 Port，或先切換到這台主機再試一次。"@,
            ),
        };
        assert(text =~= none + monitor + (mid + label + end));
        lemma_mentions(none, monitor, mid + label + end);
        assert(text =~= (monitor + mid) + label + end);
        lemma_mentions(monitor + mid, label, end);
    }
}

} // verus!
