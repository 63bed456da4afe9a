//! What can go wrong, and how it is said to the user.

use crate::text::{decimal, decimal_text, join2, join3};
use vstd::prelude::*;

verus! {

/// Why an operation on a display or a paired host did not succeed.
#[derive(Debug, PartialEq, Eq)]
pub enum DisplayMuxError {
    /// The platform's display interface failed.
    Backend(String),
    /// The value is no VCP 0x60 input value.
    InvalidInput(u32),
    InvalidMacAddress(String),
    WakeFailed(String),
    AuthenticationFailed,
    /// The request's time differs too much from this computer's.
    StaleRequest,
    PeerUnavailable(String),
    MonitorNoLongerAvailable(String),
    TargetNotFound,
    AmbiguousTarget { count: usize },
    UnsupportedPlatform,
}

impl Clone for DisplayMuxError {
    fn clone(&self) -> (copy: Self)
        ensures
            copy == *self,
    {
        match self {
            DisplayMuxError::Backend(detail) => DisplayMuxError::Backend(detail.clone()),
            DisplayMuxError::InvalidInput(value) => DisplayMuxError::InvalidInput(*value),
            DisplayMuxError::InvalidMacAddress(text) => DisplayMuxError::InvalidMacAddress(
                text.clone(),
            ),
            DisplayMuxError::WakeFailed(detail) => DisplayMuxError::WakeFailed(detail.clone()),
            DisplayMuxError::AuthenticationFailed => DisplayMuxError::AuthenticationFailed,
            DisplayMuxError::StaleRequest => DisplayMuxError::StaleRequest,
            DisplayMuxError::PeerUnavailable(detail) => DisplayMuxError::PeerUnavailable(
                detail.clone(),
            ),
            DisplayMuxError::MonitorNoLongerAvailable(
                id,
            ) => DisplayMuxError::MonitorNoLongerAvailable(id.clone()),
            DisplayMuxError::TargetNotFound => DisplayMuxError::TargetNotFound,
            DisplayMuxError::AmbiguousTarget { count } => DisplayMuxError::AmbiguousTarget {
                count: *count,
            },
            DisplayMuxError::UnsupportedPlatform => DisplayMuxError::UnsupportedPlatform,
        }
    }
}

impl DisplayMuxError {
    /// The message for the user, in Traditional Chinese or in English.
    pub open spec fn message(self, chinese: bool) -> Seq<char> {
        match self {
            DisplayMuxError::Backend(detail) => detail@,
            DisplayMuxError::InvalidInput(value) => if chinese {
                "無效的輸入來源："@ + decimal(value as nat)
            } else {
                "Invalid display input: "@ + decimal(value as nat)
            },
            DisplayMuxError::InvalidMacAddress(text) => if chinese {
                "無效的 MAC 位址："@ + text@
            } else {
                "Invalid MAC address: "@ + text@
            },
            DisplayMuxError::WakeFailed(detail) => if chinese {
                "無法喚醒主機："@ + detail@
            } else {
                "Unable to wake the host: "@ + detail@
            },
            DisplayMuxError::AuthenticationFailed => if chinese {
                "配對密碼驗證失敗"@
            } else {
                "Pairing password verification failed"@
            },
            DisplayMuxError::StaleRequest => if chinese {
                "要求已過期，請確認兩台主機的時間"@
            } else {
                "The request is stale; check the clock on both hosts"@
            },
            DisplayMuxError::PeerUnavailable(detail) => detail@,
            DisplayMuxError::MonitorNoLongerAvailable(id) => if chinese {
                "螢幕已不存在："@ + id@
            } else {
                "The display is no longer available: "@ + id@
            },
            DisplayMuxError::TargetNotFound => if chinese {
                "找不到完全符合的共用螢幕"@
            } else {
                "No connected display matches the shared display exactly"@
            },
            DisplayMuxError::AmbiguousTarget { count } => if chinese {
                "有 "@ + decimal(count as nat) + " 台螢幕符合共用螢幕"@
            } else {
                decimal(count as nat) + " displays match the shared display"@
            },
            DisplayMuxError::UnsupportedPlatform => if chinese {
                "此平台尚未支援"@
            } else {
                "This platform is not supported"@
            },
        }
    }

    /// The message for the user, in Traditional Chinese or in English.
    pub fn localized_message(&self, chinese: bool) -> (text: String)
        ensures
            text@ == self.message(chinese),
    {
        match self {
            DisplayMuxError::Backend(detail) => detail.clone(),
            DisplayMuxError::InvalidInput(value) => {
                let number = decimal_text(*value as u64);
                if chinese {
                    join2("無效的輸入來源：", &number)
                } else {
                    join2("Invalid display input: ", &number)
                }
            },
            DisplayMuxError::InvalidMacAddress(text) => if chinese {
                join2("無效的 MAC 位址：", text)
            } else {
                join2("Invalid MAC address: ", text)
            },
            DisplayMuxError::WakeFailed(detail) => if chinese {
                join2("無法喚醒主機：", detail)
            } else {
                join2("Unable to wake the host: ", detail)
            },
            DisplayMuxError::AuthenticationFailed => if chinese {
                "配對密碼驗證失敗".to_owned()
            } else {
                "Pairing password verification failed".to_owned()
            },
            DisplayMuxError::StaleRequest => if chinese {
                "要求已過期，請確認兩台主機的時間".to_owned()
            } else {
                "The request is stale; check the clock on both hosts".to_owned()
            },
            DisplayMuxError::PeerUnavailable(detail) => detail.clone(),
            DisplayMuxError::MonitorNoLongerAvailable(id) => if chinese {
                join2("螢幕已不存在：", id)
            } else {
                join2("The display is no longer available: ", id)
            },
            DisplayMuxError::TargetNotFound => if chinese {
                "找不到完全符合的共用螢幕".to_owned()
            } else {
                "No connected display matches the shared display exactly".to_owned()
            },
            DisplayMuxError::AmbiguousTarget { count } => {
                let number = decimal_text(*count as u64);
                if chinese {
                    join3("有 ", &number, " 台螢幕符合共用螢幕")
                } else {
                    join2(&number, " displays match the shared display")
                }
            },
            DisplayMuxError::UnsupportedPlatform => if chinese {
                "此平台尚未支援".to_owned()
            } else {
                "This platform is not supported".to_owned()
            },
        }
    }
}

} // verus!
