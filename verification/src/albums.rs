//! Album rules: valid names, which albums take pictures by hand, and how the
//! size of each album is counted.

use vstd::prelude::*;
use crate::error::AppError;
use crate::query::AlbumInfo;
use crate::text::{chars_of, str_eq, string_from_chars, trim_chars, trim_ws, CharClass};
use crate::wrappers::{json_bool_field, json_str_field, spec_json_bool_field, spec_json_str_field};

verus! {

broadcast use vstd::string::group_string_axioms;

/// An album name holds at most this many characters.
pub const MAX_ALBUM_NAME_CHARS: usize = 80;

/// The name an album is created with (trimmed), or `AlbumNameLength` when the
/// trimmed name is empty or too long.
pub open spec fn spec_album_name(name: Seq<char>) -> Result<Seq<char>, AppError> {
    let t = trim_ws(name);
    if t.len() == 0 || t.len() > MAX_ALBUM_NAME_CHARS {
        Err(AppError::AlbumNameLength)
    } else {
        Ok(t)
    }
}

/// Checks and trims the name of a new album.
pub fn album_name(name: &str) -> (out: Result<String, AppError>)
    ensures
        match out {
            Ok(n) => spec_album_name(name@) == Ok::<Seq<char>, AppError>(n@),
            Err(e) => spec_album_name(name@) == Err::<Seq<char>, AppError>(e),
        },
{
    let cs = chars_of(name);
    let t = trim_chars(&cs, CharClass::WhiteSpace);
    if t.len() == 0 || t.len() > MAX_ALBUM_NAME_CHARS {
        Err(AppError::AlbumNameLength)
    } else {
        Ok(string_from_chars(&t))
    }
}

/// Pictures can be added by hand only to a manual album; a smart album is
/// kept by its rule.
pub fn ensure_manual_album(kind: &str) -> (out: Result<(), AppError>)
    ensures
        out is Ok <==> kind@ == "manual"@,
        out matches Err(e) ==> e == AppError::SmartAlbumReadOnly,
{
    if str_eq(kind, "manual") {
        Ok(())
    } else {
        Err(AppError::SmartAlbumReadOnly)
    }
}

/// How the size of an album is counted.
#[derive(Debug, Clone, Copy, PartialEq, Eq, Structural)]
pub enum AlbumCount {
    /// The pictures added to the album.
    Members,
    /// The pictures whose recognised text is not blank.
    WithText,
    /// The favourites captured in the current month.
    FavoritesThisMonth,
    /// A rule the library does not know: the album counts as empty.
    Zero,
}

/// The counting rule of an album: manual albums count their members; a smart
/// album with `"hasOcr": true` counts pictures with text; one with
/// `"favorite": true` and `"dateRange": "month"` counts this month's
/// favourites; any other counts zero.
pub open spec fn spec_album_count(album: AlbumInfo) -> AlbumCount {
    if album.kind@ == "manual"@ {
        AlbumCount::Members
    } else {
        match album.rule_json {
            None => AlbumCount::Zero,
            Some(r) => if spec_json_bool_field(r@, "hasOcr"@) == Some(true) {
                AlbumCount::WithText
            } else if spec_json_bool_field(r@, "favorite"@) == Some(true) && spec_json_str_field(
                r@,
                "dateRange"@,
            ) == Some("month"@) {
                AlbumCount::FavoritesThisMonth
            } else {
                AlbumCount::Zero
            },
        }
    }
}

/// Album names are kept trimmed and must hold 1 to 80 characters; a
/// manual album counts the pictures added to it, and a smart album counts by
/// its rule: pictures with text for `"hasOcr": true`, this month's
/// favourites for `"favorite": true` with `"dateRange": "month"`, nothing
/// otherwise.
pub proof fn law_album_names_and_counts(name: Seq<char>, album: AlbumInfo)
    ensures
        (1 <= trim_ws(name).len() <= 80) ==> spec_album_name(name) == Ok::<Seq<char>, AppError>(
            trim_ws(name),
        ),
        !(1 <= trim_ws(name).len() <= 80) ==> spec_album_name(name) == Err::<Seq<char>, AppError>(
            AppError::AlbumNameLength,
        ),
        album.kind@ == "manual"@ ==> spec_album_count(album) == AlbumCount::Members,
        (album.kind@ != "manual"@ && album.rule_json is None) ==> spec_album_count(album)
            == AlbumCount::Zero,
        (album.kind@ != "manual"@ && album.rule_json is Some) ==> ({
            let r = album.rule_json->0@;
            &&& spec_json_bool_field(r, "hasOcr"@) == Some(true) ==> spec_album_count(album)
                == AlbumCount::WithText
            &&& (spec_json_bool_field(r, "hasOcr"@) != Some(true) && spec_json_bool_field(
                r,
                "favorite"@,
            ) == Some(true) && spec_json_str_field(r, "dateRange"@) == Some("month"@))
                ==> spec_album_count(album) == AlbumCount::FavoritesThisMonth
            &&& (spec_json_bool_field(r, "hasOcr"@) != Some(true) && !(spec_json_bool_field(
                r,
                "favorite"@,
            ) == Some(true) && spec_json_str_field(r, "dateRange"@) == Some("month"@)))
                ==> spec_album_count(album) == AlbumCount::Zero
        }),
{
}

/// The counting rule of an album.
pub fn album_count(album: &AlbumInfo) -> (c: AlbumCount)
    ensures
        c == spec_album_count(*album),
{
    if str_eq(album.kind.as_str(), "manual") {
        return AlbumCount::Members;
    }
    match &album.rule_json {
        None => AlbumCount::Zero,
        Some(r) => {
            if json_bool_field(r.as_str(), "hasOcr") == Some(true) {
                AlbumCount::WithText
            } else if json_bool_field(r.as_str(), "favorite") == Some(true) {
                let range = json_str_field(r.as_str(), "dateRange");
                let month = match &range {
                    Some(d) => str_eq(d.as_str(), "month"),
                    None => false,
                };
                if month {
                    AlbumCount::FavoritesThisMonth
                } else {
                    AlbumCount::Zero
                }
            } else {
                AlbumCount::Zero
            }
        },
    }
}

} // verus!
