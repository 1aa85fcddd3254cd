//! The kinds of artifact an operator can ask for.

use std::str::FromStr;
use vstd::prelude::*;
use vstd::string::StringExecFns;
use crate::text::str_eq;

verus! {

/// The packaging an update is fetched in.
#[derive(Clone, Copy, Debug, PartialEq, Eq, Structural)]
pub enum UpdateType {
    AppImage,
    Standalone,
}

/// Starts the message for a name that stands for no update type; the
/// rejected name follows it.
pub const UNKNOWN_UPDATE_TYPE: &'static str = "Unknown update type: ";

impl UpdateType {
    /// The name that selects [`UpdateType::AppImage`].
    pub const APP_IMAGE: &'static str = "appimage";

    /// The name that selects [`UpdateType::Standalone`].
    pub const STANDALONE: &'static str = "standalone";

    /// The update type a name stands for. Names are matched exactly, with
    /// no trimming and no folding of case.
    pub open spec fn named(name: Seq<char>) -> Option<UpdateType> {
        if name == UpdateType::APP_IMAGE@ {
            Some(UpdateType::AppImage)
        } else if name == UpdateType::STANDALONE@ {
            Some(UpdateType::Standalone)
        } else {
            None
        }
    }
}

impl FromStr for UpdateType {
    type Err = String;

    /// Parses the name of an update type. Any other string is rejected with
    /// a message that quotes it.
    fn from_str(s: &str) -> (parsed: Result<Self, Self::Err>)
        ensures
            match parsed {
                Ok(update_type) => UpdateType::named(s@) == Some(update_type),
                Err(message) => UpdateType::named(s@) is None && message@ == UNKNOWN_UPDATE_TYPE@
                    + s@,
            },
    {
        if str_eq(s, UpdateType::APP_IMAGE) {
            Ok(UpdateType::AppImage)
        } else if str_eq(s, UpdateType::STANDALONE) {
            Ok(UpdateType::Standalone)
        } else {
            let mut message = UNKNOWN_UPDATE_TYPE.to_owned();
            message.append(s);
            Err(message)
        }
    }
}

} // verus!
