//! The classification rule table: a fixed mapping from a lower-cased file
//! extension to an (area number, category label) pair, with a fixed
//! miscellaneous fallback for unmapped extensions. Both the rule-based
//! classifier and the structure builder consult this one table.

use vstd::prelude::*;
use vstd::string::*;
use crate::text::str_eq;

verus! {

/// The table entry for `ext`, or `None` if the extension is unmapped.
pub open spec fn rule_lookup_spec(ext: Seq<char>) -> Option<(u8, Seq<char>)> {
    if ext == "pdf"@ {
        Some((20u8, "Reports and Documents"@))
    } else if ext == "doc"@ || ext == "docx"@ || ext == "txt"@ || ext == "rtf"@ {
        Some((20u8, "Text Documents"@))
    } else if ext == "xls"@ || ext == "xlsx"@ || ext == "csv"@ {
        Some((20u8, "Spreadsheets"@))
    } else if ext == "ppt"@ || ext == "pptx"@ {
        Some((20u8, "Presentations"@))
    } else if ext == "jpg"@ || ext == "jpeg"@ || ext == "png"@ || ext == "gif"@ || ext == "bmp"@
        || ext == "svg"@ {
        Some((30u8, "Images"@))
    } else if ext == "mp4"@ || ext == "avi"@ || ext == "mkv"@ || ext == "mov"@ {
        Some((30u8, "Videos"@))
    } else if ext == "mp3"@ || ext == "wav"@ || ext == "flac"@ {
        Some((30u8, "Audio"@))
    } else if ext == "js"@ || ext == "ts"@ || ext == "py"@ || ext == "rs"@ || ext == "java"@
        || ext == "cpp"@ || ext == "c"@ {
        Some((40u8, "Source Code"@))
    } else if ext == "html"@ || ext == "css"@ {
        Some((40u8, "Web Files"@))
    } else if ext == "json"@ || ext == "xml"@ || ext == "yaml"@ || ext == "yml"@ {
        Some((40u8, "Configuration"@))
    } else if ext == "zip"@ || ext == "rar"@ || ext == "7z"@ || ext == "tar"@ || ext == "gz"@ {
        Some((50u8, "Compressed Files"@))
    } else {
        None
    }
}

/// The table entry for `ext`, with the miscellaneous fallback applied.
pub open spec fn mapped_pair_spec(ext: Seq<char>) -> (u8, Seq<char>) {
    match rule_lookup_spec(ext) {
        Some(p) => p,
        None => (90u8, "Miscellaneous"@),
    }
}

/// The view of an optional (area, label) pair.
pub open spec fn opt_pair_view(r: Option<(u8, String)>) -> Option<(u8, Seq<char>)> {
    match r {
        Some(p) => Some((p.0, p.1@)),
        None => None,
    }
}

/// Looks an extension up in the rule table. The extension is matched as
/// given; callers lower-case it first (ASCII folding; the table's keys
/// are all ASCII).
pub fn lookup_extension(ext: &str) -> (r: Option<(u8, String)>)
    ensures
        opt_pair_view(r) == rule_lookup_spec(ext@),
{
    if str_eq(ext, "pdf") {
        Some((20, String::from_str("Reports and Documents")))
    } else if str_eq(ext, "doc") || str_eq(ext, "docx") || str_eq(ext, "txt") || str_eq(
        ext,
        "rtf",
    ) {
        Some((20, String::from_str("Text Documents")))
    } else if str_eq(ext, "xls") || str_eq(ext, "xlsx") || str_eq(ext, "csv") {
        Some((20, String::from_str("Spreadsheets")))
    } else if str_eq(ext, "ppt") || str_eq(ext, "pptx") {
        Some((20, String::from_str("Presentations")))
    } else if str_eq(ext, "jpg") || str_eq(ext, "jpeg") || str_eq(ext, "png") || str_eq(ext, "gif")
        || str_eq(ext, "bmp") || str_eq(ext, "svg") {
        Some((30, String::from_str("Images")))
    } else if str_eq(ext, "mp4") || str_eq(ext, "avi") || str_eq(ext, "mkv") || str_eq(
        ext,
        "mov",
    ) {
        Some((30, String::from_str("Videos")))
    } else if str_eq(ext, "mp3") || str_eq(ext, "wav") || str_eq(ext, "flac") {
        Some((30, String::from_str("Audio")))
    } else if str_eq(ext, "js") || str_eq(ext, "ts") || str_eq(ext, "py") || str_eq(ext, "rs")
        || str_eq(ext, "java") || str_eq(ext, "cpp") || str_eq(ext, "c") {
        Some((40, String::from_str("Source Code")))
    } else if str_eq(ext, "html") || str_eq(ext, "css") {
        Some((40, String::from_str("Web Files")))
    } else if str_eq(ext, "json") || str_eq(ext, "xml") || str_eq(ext, "yaml") || str_eq(
        ext,
        "yml",
    ) {
        Some((40, String::from_str("Configuration")))
    } else if str_eq(ext, "zip") || str_eq(ext, "rar") || str_eq(ext, "7z") || str_eq(ext, "tar")
        || str_eq(ext, "gz") {
        Some((50, String::from_str("Compressed Files")))
    } else {
        None
    }
}

/// Looks an extension up in the rule table, falling back to the
/// miscellaneous area for unmapped extensions.
pub fn lookup_extension_or_default(ext: &str) -> (r: (u8, String))
    ensures
        (r.0, r.1@) == mapped_pair_spec(ext@),
{
    match lookup_extension(ext) {
        Some(p) => p,
        None => (90, String::from_str("Miscellaneous")),
    }
}

/// A slot index for each label the table can pair with `area`; labels the
/// table never produces for that area sit at -1. Distinct labels of one
/// area occupy distinct slots, which bounds how many categories the
/// builder can ever create inside one area.
pub open spec fn label_slot(area: u8, label: Seq<char>) -> int {
    if area == 20 {
        if label == "Reports and Documents"@ {
            0
        } else if label == "Text Documents"@ {
            1
        } else if label == "Spreadsheets"@ {
            2
        } else if label == "Presentations"@ {
            3
        } else {
            -1
        }
    } else if area == 30 {
        if label == "Images"@ {
            0
        } else if label == "Videos"@ {
            1
        } else if label == "Audio"@ {
            2
        } else {
            -1
        }
    } else if area == 40 {
        if label == "Source Code"@ {
            0
        } else if label == "Web Files"@ {
            1
        } else if label == "Configuration"@ {
            2
        } else {
            -1
        }
    } else if area == 50 {
        if label == "Compressed Files"@ {
            0
        } else {
            -1
        }
    } else if area == 90 {
        if label == "Miscellaneous"@ {
            0
        } else {
            -1
        }
    } else {
        -1
    }
}

/// Every pair the table can produce has a valid area number (a multiple of
/// ten between 10 and 90) and a label sitting at a slot in [0, 4).
pub proof fn lemma_mapped_pair_in_table(ext: Seq<char>)
    ensures
        ({
            let (a, l) = mapped_pair_spec(ext);
            a % 10 == 0 && 10 <= a <= 90 && 0 <= label_slot(a, l) < 4
        }),
{
    reveal_strlit("Reports and Documents");
    reveal_strlit("Text Documents");
    reveal_strlit("Spreadsheets");
    reveal_strlit("Presentations");
    reveal_strlit("Images");
    reveal_strlit("Videos");
    reveal_strlit("Audio");
    reveal_strlit("Source Code");
    reveal_strlit("Web Files");
    reveal_strlit("Configuration");
    reveal_strlit("Compressed Files");
    reveal_strlit("Miscellaneous");
}

} // verus!
