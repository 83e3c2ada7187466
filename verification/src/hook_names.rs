//! The host-defined hook vocabulary plugins can opt into.

use vstd::prelude::*;

verus! {

/// A file was opened.
pub const ON_FILE_OPEN: &'static str = "on_file_open";

/// Text was selected.
pub const ON_TEXT_SELECT: &'static str = "on_text_select";

/// The application started.
pub const ON_APP_START: &'static str = "on_app_start";

/// The application is closing.
pub const ON_APP_CLOSE: &'static str = "on_app_close";

/// A chat message is about to be sent.
pub const BEFORE_MESSAGE_SEND: &'static str = "before_message_send";

/// A chat message was received.
pub const AFTER_MESSAGE_RECEIVE: &'static str = "after_message_receive";

/// The application-specific avatar action hook.
pub const ON_LIVE2D_ACTION: &'static str = "on_live2d_action";

} // verus!
