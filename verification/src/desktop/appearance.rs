//! The appearance: the theme and the wallpaper.

use vstd::prelude::*;

use crate::error::{fails_with, ErrorKind, SessionError};
use crate::text::{
    byte_len, chars_of, control_char, is_control, same_chars, text_bytes, trim, trim_chars,
};

use super::domain::StableId;

verus! {

/// The version of the stored document.
pub const APPEARANCE_SCHEMA_VERSION: u32 = 1;

/// The longest identifier, in bytes.
pub const MAX_ID_BYTES: usize = 256;

/// The document that is stored.
pub struct PersistentAppearance {
    pub schema_version: u32,
    pub wallpaper_id: String,
}

pub enum AppearanceCommand {
    ApplyTheme { theme_id: StableId },
    SetWallpaper { wallpaper_id: StableId },
    SetReducedMotion { enabled: bool },
    SetOpaque { enabled: bool },
}

/// Whether a text can identify a theme or a wallpaper.
pub open spec fn is_identifier(s: Seq<char>) -> bool {
    &&& s.len() > 0
    &&& trim(s) == s
    &&& byte_len(s) <= MAX_ID_BYTES
    &&& forall|i: int| 0 <= i < s.len() ==> !is_control(#[trigger] s[i])
}

/// Checks an identifier of something that is described.
pub fn validate_text(value: &str, description: &str) -> (checked: Result<(), SessionError>)
    ensures
        if is_identifier(value@) {
            checked is Ok
        } else {
            fails_with(
                checked,
                ErrorKind::InvalidInput,
                "invalid "@ + description@ + " ID"@,
            )
        },
{
    let letters = chars_of(value);
    let mut fits = letters.len() > 0 && same_chars(
        trim_chars(letters.as_slice()),
        letters.as_slice(),
    ) && text_bytes(value) <= MAX_ID_BYTES;
    let mut i: usize = 0;
    while i < letters.len()
        invariant
            i <= letters@.len(),
            letters@ == value@,
            fits == (value@.len() > 0 && trim(value@) == value@ && byte_len(value@)
                <= MAX_ID_BYTES && forall|j: int|
                0 <= j < i ==> !is_control(#[trigger] value@[j])),
        decreases letters.len() - i,
    {
        if control_char(letters[i]) {
            assert(is_control(value@[i as int]));
            fits = false;
        }
        i = i + 1;
    }
    if fits {
        return Ok(());
    }
    let mut message = "invalid ".to_owned();
    message.append(description);
    message.append(" ID");
    Err(SessionError { kind: ErrorKind::InvalidInput, message })
}

/// What is asked of the parts of the appearance.
pub enum AppearanceAction {
    ActivateTheme(String),
    /// Store the document with this wallpaper.
    StoreWallpaper(PersistentAppearance),
    /// Change the preferences of the theme manager that are given.
    SetEffects { reduced_motion: Option<bool>, opaque: Option<bool> },
}

/// Whether an action carries out a command, or which check fails.
pub open spec fn carries_out(
    action: Result<AppearanceAction, SessionError>,
    command: AppearanceCommand,
) -> bool {
    match command {
        AppearanceCommand::ApplyTheme { theme_id } => if is_identifier(theme_id.0@) {
            action is Ok && action->Ok_0 is ActivateTheme && action->Ok_0->ActivateTheme_0@
                == theme_id.0@
        } else {
            fails_with(
                action,
                ErrorKind::InvalidInput,
                "invalid "@ + "theme"@ + " ID"@,
            )
        },
        AppearanceCommand::SetWallpaper { wallpaper_id } => if is_identifier(wallpaper_id.0@) {
            &&& action is Ok
            &&& action->Ok_0 is StoreWallpaper
            &&& action->Ok_0->StoreWallpaper_0.schema_version == APPEARANCE_SCHEMA_VERSION
            &&& action->Ok_0->StoreWallpaper_0.wallpaper_id@ == wallpaper_id.0@
        } else {
            fails_with(
                action,
                ErrorKind::InvalidInput,
                "invalid "@ + "wallpaper"@ + " ID"@,
            )
        },
        AppearanceCommand::SetReducedMotion { enabled } => action == Ok::<
            AppearanceAction,
            SessionError,
        >(AppearanceAction::SetEffects { reduced_motion: Some(enabled), opaque: None }),
        AppearanceCommand::SetOpaque { enabled } => action == Ok::<AppearanceAction, SessionError>(
            AppearanceAction::SetEffects { reduced_motion: None, opaque: Some(enabled) },
        ),
    }
}

/// What a command asks of the parts of the appearance.
pub fn apply(command: &AppearanceCommand) -> (action: Result<AppearanceAction, SessionError>)
    ensures
        carries_out(action, *command),
{
    match command {
        AppearanceCommand::ApplyTheme { theme_id } => {
            match validate_text(theme_id.as_str(), "theme") {
                Ok(()) => Ok(AppearanceAction::ActivateTheme(theme_id.0.clone())),
                Err(error) => Err(error),
            }
        },
        AppearanceCommand::SetWallpaper { wallpaper_id } => {
            match stored_wallpaper(wallpaper_id.as_str()) {
                Ok(document) => Ok(AppearanceAction::StoreWallpaper(document)),
                Err(error) => Err(error),
            }
        },
        AppearanceCommand::SetReducedMotion { enabled } => Ok(
            AppearanceAction::SetEffects { reduced_motion: Some(*enabled), opaque: None },
        ),
        AppearanceCommand::SetOpaque { enabled } => Ok(
            AppearanceAction::SetEffects { reduced_motion: None, opaque: Some(*enabled) },
        ),
    }
}

/// The document that stores a wallpaper.
pub fn stored_wallpaper(wallpaper_id: &str) -> (document: Result<
    PersistentAppearance,
    SessionError,
>)
    ensures
        if is_identifier(wallpaper_id@) {
            &&& document is Ok
            &&& document->Ok_0.schema_version == APPEARANCE_SCHEMA_VERSION
            &&& document->Ok_0.wallpaper_id@ == wallpaper_id@
        } else {
            fails_with(
                document,
                ErrorKind::InvalidInput,
                "invalid "@ + "wallpaper"@ + " ID"@,
            )
        },
{
    match validate_text(wallpaper_id, "wallpaper") {
        Ok(()) => Ok(
            PersistentAppearance {
                schema_version: APPEARANCE_SCHEMA_VERSION,
                wallpaper_id: wallpaper_id.to_owned(),
            },
        ),
        Err(error) => Err(error),
    }
}

/// The wallpaper of a session that has stored none.
pub fn default_wallpaper() -> (document: PersistentAppearance)
    ensures
        document.schema_version == APPEARANCE_SCHEMA_VERSION,
        document.wallpaper_id@ == "builtin.sleepy-default"@,
{
    PersistentAppearance {
        schema_version: APPEARANCE_SCHEMA_VERSION,
        wallpaper_id: "builtin.sleepy-default".to_owned(),
    }
}

/// The wallpaper in a stored document, which the parser read or refused with a
/// text.
pub fn read_wallpaper(document: Result<PersistentAppearance, String>) -> (wallpaper_id: Result<
    String,
    SessionError,
>)
    ensures
        match document {
            Err(reason) => fails_with(wallpaper_id, ErrorKind::InvalidData, reason@),
            Ok(document) => if document.schema_version != APPEARANCE_SCHEMA_VERSION {
                fails_with(
                    wallpaper_id,
                    ErrorKind::InvalidData,
                    "appearance state schema version is unknown"@,
                )
            } else if !is_identifier(document.wallpaper_id@) {
                fails_with(
                    wallpaper_id,
                    ErrorKind::InvalidInput,
                    "invalid "@ + "wallpaper"@ + " ID"@,
                )
            } else {
                wallpaper_id is Ok && wallpaper_id->Ok_0@ == document.wallpaper_id@
            },
        },
{
    let document = match document {
        Ok(document) => document,
        Err(reason) => return Err(
            SessionError { kind: ErrorKind::InvalidData, message: reason },
        ),
    };
    if document.schema_version != APPEARANCE_SCHEMA_VERSION {
        return Err(
            SessionError::new(
                ErrorKind::InvalidData,
                "appearance state schema version is unknown",
            ),
        );
    }
    match validate_text(document.wallpaper_id.as_str(), "wallpaper") {
        Ok(()) => Ok(document.wallpaper_id),
        Err(error) => Err(error),
    }
}

} // verus!
