//! What the user is told on occasions that need no more than a text, and the
//! small decisions around starting the app.

use crate::locale::{text_in, ui_text, UiLocale};
use crate::routes::RouteAdoption;
use crate::switching::OperationResult;
use crate::text::{decimal, decimal_text, join2, join5, views, wide_decimal_text};
use vstd::prelude::*;

verus! {

/// Whether a shortcut can be used, phrased for the settings page.
#[derive(Debug, PartialEq, Eq)]
pub struct ShortcutCheckResult {
    pub available: bool,
    pub message: String,
}

/// What is known of a shortcut before registering it is tried.
#[derive(Debug, PartialEq, Eq)]
pub enum ShortcutCheckStep {
    Answer(ShortcutCheckResult),
    /// Only trying to register it can tell.
    TryRegistering,
}

/// Whether `step` is what can be told of a shortcut before registering it is tried.
pub open spec fn is_check_step(
    locale: UiLocale,
    is_current_and_registered: bool,
    is_registered: bool,
    step: ShortcutCheckStep,
) -> bool {
    match step {
        ShortcutCheckStep::Answer(result) => {
            &&& is_current_and_registered || is_registered
            &&& result.available == is_current_and_registered
            &&& result.message@ == if is_current_and_registered {
                text_in(locale, "快捷鍵可使用"@, "Shortcut is available"@)
            } else {
                text_in(
                    locale,
                    "此快捷鍵已由 DisplayMux 的其他功能使用"@,
                    "This shortcut is already used by another DisplayMux feature."@,
                )
            }
        },
        ShortcutCheckStep::TryRegistering => !is_current_and_registered && !is_registered,
    }
}

/// Whether an acceptable shortcut can be used, as far as it can be told: the
/// registered one can, one that another feature registered cannot.
pub fn shortcut_check_step(
    locale: UiLocale,
    is_current_and_registered: bool,
    is_registered: bool,
) -> (step: ShortcutCheckStep)
    ensures
        is_check_step(locale, is_current_and_registered, is_registered, step),
{
    if is_current_and_registered {
        return ShortcutCheckStep::Answer(
            ShortcutCheckResult {
                available: true,
                message: ui_text(locale, "快捷鍵可使用", "Shortcut is available").to_owned(),
            },
        );
    }
    if is_registered {
        return ShortcutCheckStep::Answer(
            ShortcutCheckResult {
                available: false,
                message: ui_text(
                    locale,
                    "此快捷鍵已由 DisplayMux 的其他功能使用",
                    "This shortcut is already used by another DisplayMux feature.",
                ).to_owned(),
            },
        );
    }
    ShortcutCheckStep::TryRegistering
}

/// Whether a shortcut can be used, once registering it was tried.
pub fn shortcut_trial_result(locale: UiLocale, registered: bool) -> (result: ShortcutCheckResult)
    ensures
        result.available == registered,
        result.message@ == if registered {
            text_in(locale, "快捷鍵可使用"@, "Shortcut is available"@)
        } else {
            text_in(
                locale,
                "快捷鍵發生衝突，可能已被其他程式使用"@,
                "Shortcut conflict detected. Another application may already be using it."@,
            )
        },
{
    let message = if registered {
        ui_text(locale, "快捷鍵可使用", "Shortcut is available")
    } else {
        ui_text(
            locale,
            "快捷鍵發生衝突，可能已被其他程式使用",
            "Shortcut conflict detected. Another application may already be using it.",
        )
    };
    ShortcutCheckResult { available: registered, message: message.to_owned() }
}

/// What is said where a shortcut could not be registered.
pub fn shortcut_conflict_text(locale: UiLocale, detail: &str) -> (text: String)
    ensures
        text@ == text_in(
            locale,
            "無法註冊快捷鍵，可能已被其他程式使用："@,
            "Unable to register the shortcut. Another app may be using it: "@,
        ) + detail@,
{
    join2(
        ui_text(
            locale,
            "無法註冊快捷鍵，可能已被其他程式使用：",
            "Unable to register the shortcut. Another app may be using it: ",
        ),
        detail,
    )
}

/// What is said once settings were saved.
pub fn settings_saved_result(locale: UiLocale) -> (result: OperationResult)
    ensures
        result.title@ == text_in(locale, "設定已儲存"@, "Settings saved"@),
        result.detail@ == text_in(
            locale,
            "共用螢幕、各主機輸入與配對設定已更新。"@,
            "The shared display, host inputs, and pairing settings were updated."@,
        ),
        !result.peer_woken,
        !result.warning,
{
    OperationResult {
        title: ui_text(locale, "設定已儲存", "Settings saved").to_owned(),
        detail: ui_text(
            locale,
            "共用螢幕、各主機輸入與配對設定已更新。",
            "The shared display, host inputs, and pairing settings were updated.",
        ).to_owned(),
        peer_woken: false,
        warning: false,
    }
}

/// What is said once a paired host answered and its inputs were adopted.
pub fn probe_result(locale: UiLocale, peer_name: &str, adoption: RouteAdoption) -> (result:
    OperationResult)
    ensures
        result.title@ == peer_name@ + text_in(locale, " 已連線"@, " connected"@),
        result.detail == adoption.detail,
        !result.peer_woken,
        result.warning == adoption.warning,
{
    OperationResult {
        title: join2(peer_name, ui_text(locale, " 已連線", " connected")),
        detail: adoption.detail,
        peer_woken: false,
        warning: adoption.warning,
    }
}

/// What is said where updates cannot be looked for.
pub fn update_error_text(locale: UiLocale) -> (text: String)
    ensures
        text@ == text_in(
            locale,
            "無法檢查更新；請確認網路可連線至 GitHub Releases，稍後再試一次"@,
            "Unable to check for updates. Confirm that GitHub Releases is reachable and try again later."@,
        ),
{
    ui_text(
        locale,
        "無法檢查更新；請確認網路可連線至 GitHub Releases，稍後再試一次",
        "Unable to check for updates. Confirm that GitHub Releases is reachable and try again later.",
    ).to_owned()
}

/// What is said where an update could not be installed.
pub fn update_install_error_text(locale: UiLocale) -> (text: String)
    ensures
        text@ == text_in(
            locale,
            "更新下載或簽章驗證失敗；目前版本未變更，請稍後再試一次"@,
            "The update download or signature verification failed. The current version was not changed; try again later."@,
        ),
{
    ui_text(
        locale,
        "更新下載或簽章驗證失敗；目前版本未變更，請稍後再試一次",
        "The update download or signature verification failed. The current version was not changed; try again later.",
    ).to_owned()
}

/// The arguments that a login item starts the app with.
pub fn autostart_args(windows: bool) -> (args: Option<Vec<&'static str>>)
    ensures
        match args {
            Some(list) => windows && list@.len() == 1 && list@[0]@ == "--autostart"@,
            None => !windows,
        },
{
    if windows {
        Some(vec!["--autostart"])
    } else {
        None
    }
}

/// Whether the app was started as a login item.
pub fn launched_from_autostart(args: &[String]) -> (yes: bool)
    ensures
        yes == views(args@).contains("--autostart"@),
{
    crate::text::contains_text(args, "--autostart")
}

/// A nonce that no other request has: the process, the time and a count.
pub fn nonce_text(process_id: u32, nanos: u128, counter: u64) -> (nonce: String)
    ensures
        nonce@ == decimal(process_id as nat) + "-"@ + decimal(nanos as nat) + "-"@ + decimal(
            counter as nat,
        ),
{
    join5(
        &decimal_text(process_id as u64),
        "-",
        &wide_decimal_text(nanos),
        "-",
        &decimal_text(counter),
    )
}

/// Nonces of one process with different counts differ, whatever the clock
/// shows.
pub proof fn nonces_differ_by_their_count(
    process_id: nat,
    nanos: nat,
    counter: nat,
    other_nanos: nat,
    other_counter: nat,
)
    requires
        counter != other_counter,
    ensures
        decimal(process_id) + "-"@ + decimal(nanos) + "-"@ + decimal(counter) != decimal(process_id)
            + "-"@ + decimal(other_nanos) + "-"@ + decimal(other_counter),
{
    reveal_strlit("-");
    let a = decimal(process_id) + "-"@ + decimal(nanos) + "-"@ + decimal(counter);
    let b = decimal(process_id) + "-"@ + decimal(other_nanos) + "-"@ + decimal(other_counter);
    if a == b {
        let p = decimal(process_id) + "-"@;
        let x = decimal(nanos) + ("-"@ + decimal(counter));
        let y = decimal(other_nanos) + ("-"@ + decimal(other_counter));
        assert(a =~= p + x);
        assert(b =~= p + y);
        assert(a.skip(p.len() as int) =~= x);
        assert(b.skip(p.len() as int) =~= y);
        let n = decimal(nanos).len();
        let m = decimal(other_nanos).len();
        crate::text::decimal_is_digits(nanos);
        crate::text::decimal_is_digits(other_nanos);
        if n < m {
            assert(x[n as int] == '-');
            assert(y[n as int] == decimal(other_nanos)[n as int]);
        }
        if m < n {
            assert(y[m as int] == '-');
            assert(x[m as int] == decimal(nanos)[m as int]);
        }
        assert(x.skip(n as int + 1) =~= decimal(counter));
        assert(y.skip(m as int + 1) =~= decimal(other_counter));
        crate::text::decimal_is_injective(counter, other_counter);
    }
}

} // verus!
