//! Naming and admission rules for files attached to incidents; the bytes
//! themselves are stored elsewhere.
use vstd::prelude::*;
use vstd::string::*;

use crate::error::AppError;
use crate::incidents::same_text;
use crate::text::{cat, int_text, int_to_text};
use crate::validation::{sanitize_filename, sanitized_name};

verus! {

/// Largest attachment accepted, in bytes (50 MiB).
pub const MAX_ATTACHMENT_BYTES: i64 = 52428800;

/// Where an accepted attachment is kept: its file name in the attachment
/// store, and that name relative to the application's data directory.
#[derive(Debug, Clone)]
pub struct AttachmentPlan {
    pub stored_name: String,
    pub relative_path: String,
}

/// The kinds of file that can be attached.
pub open spec fn allowed_file_type(t: Seq<char>) -> bool {
    t == "photo"@ || t == "audio"@ || t == "document"@
}

/// Admits a file of `file_size` bytes named `file_name` (the last component
/// of its path) as an attachment of kind `file_type` to incident
/// `incident_id`. The kind must be photo, audio or document, something of the
/// name must survive sanitising, and the size must not exceed
/// `MAX_ATTACHMENT_BYTES`; the file is then stored as
/// `<incident id>_<sanitised name>` under `attachments/`.
pub fn plan_attachment(incident_id: i64, file_name: &str, file_type: &str, file_size: i64) -> (r:
    Result<AttachmentPlan, AppError>)
    ensures
        r is Ok <==> (allowed_file_type(file_type@) && sanitized_name(file_name@).len() > 0
            && file_size <= MAX_ATTACHMENT_BYTES),
        r is Err ==> r matches Err(AppError::Validation(_)),
        r matches Ok(p) ==> {
            &&& p.stored_name@ == int_text(incident_id as int) + "_"@ + sanitized_name(file_name@)
            &&& p.relative_path@ == "attachments/"@ + p.stored_name@
        },
{
    proof {
        reveal_strlit("photo");
        reveal_strlit("audio");
        reveal_strlit("document");
    }
    if !(same_text(file_type, "photo") || same_text(file_type, "audio") || same_text(
        file_type,
        "document",
    )) {
        let m = cat("Invalid file type: ", file_type);
        return Err(AppError::Validation(cat(m.as_str(), ". Must be one of: photo, audio, document")));
    }
    let safe = sanitize_filename(file_name);
    if safe.as_str().is_empty() {
        return Err(AppError::Validation(String::from_str("Filename would be empty after sanitization")));
    }
    if file_size > MAX_ATTACHMENT_BYTES {
        return Err(AppError::Validation(String::from_str("File size exceeds maximum of 52428800 bytes (50MB)")));
    }
    let id_text = int_to_text(incident_id);
    let stored = cat(id_text.as_str(), "_");
    let stored = cat(stored.as_str(), safe.as_str());
    let relative = cat("attachments/", stored.as_str());
    Ok(AttachmentPlan { stored_name: stored, relative_path: relative })
}

} // verus!
