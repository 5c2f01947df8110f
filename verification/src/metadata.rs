//! What indexing reads of a picture's EXIF block: the capture time texts, the
//! camera name and the GPS location.

use vstd::prelude::*;
use crate::library::{
    camera_label, clean_exif_text, gps_label, opt_view, spec_camera_label, spec_clean_exif_text,
    spec_gps_label,
};
use crate::text::{chars_of, string_from_chars, trim_by, trim_chars, CharClass};
use chrono::{Datelike as _, Timelike as _};

verus! {

broadcast use vstd::string::group_string_axioms;

/// The EXIF fields indexing reads from the primary image, each as the EXIF
/// library displays its value.
#[derive(Debug, Clone)]
pub struct ExifFields {
    pub date_time_original: Option<String>,
    pub date_time_digitized: Option<String>,
    pub date_time: Option<String>,
    pub make: Option<String>,
    pub model: Option<String>,
    pub gps_latitude: Option<String>,
    pub gps_longitude: Option<String>,
}

impl ExifFields {
    /// The fields' texts, in the order they are declared.
    pub open spec fn texts(self) -> Seq<Option<Seq<char>>> {
        seq![
            opt_view(self.date_time_original),
            opt_view(self.date_time_digitized),
            opt_view(self.date_time),
            opt_view(self.make),
            opt_view(self.model),
            opt_view(self.gps_latitude),
            opt_view(self.gps_longitude),
        ]
    }
}

/// The displayed values of the primary image's DateTimeOriginal,
/// DateTimeDigitized, DateTime, Make, Model, GPSLatitude and GPSLongitude
/// fields that `exif::Reader::read_from_container` finds in the file's bytes,
/// or `None` when it reports an error.
pub uninterp spec fn spec_exif_texts(bytes: Seq<u8>) -> Option<Seq<Option<Seq<char>>>>;

/// Calls `exif::Reader::read_from_container` on the bytes, then `get_field`
/// in the primary image and `display_value` for each field that indexing
/// reads; the texts are named by `spec_exif_texts`.
#[verifier::external_body]
fn read_exif_fields(bytes: &[u8]) -> (out: Option<ExifFields>)
    ensures
        match out {
            Some(f) => spec_exif_texts(bytes@) == Some(f.texts()),
            None => spec_exif_texts(bytes@) is None,
        },
{
    let exif = exif::Reader::new().read_from_container(&mut std::io::Cursor::new(bytes)).ok()?;
    let text = |tag| exif.get_field(tag, exif::In::PRIMARY).map(|f| f.display_value().to_string());
    Some(ExifFields {
        date_time_original: text(exif::Tag::DateTimeOriginal),
        date_time_digitized: text(exif::Tag::DateTimeDigitized),
        date_time: text(exif::Tag::DateTime),
        make: text(exif::Tag::Make),
        model: text(exif::Tag::Model),
        gps_latitude: text(exif::Tag::GPSLatitude),
        gps_longitude: text(exif::Tag::GPSLongitude),
    })
}

/// What the EXIF block tells of a picture: the three time texts in the order
/// they are tried (DateTimeOriginal, DateTimeDigitized, DateTime), the camera name and the
/// location.
#[derive(Debug, Clone)]
pub struct ExifSummary {
    pub date_texts: Vec<Option<String>>,
    pub camera: Option<String>,
    pub location: Option<String>,
}

/// An optional EXIF text, cleaned.
pub open spec fn clean_opt(value: Option<Seq<char>>) -> Option<Seq<char>> {
    match value {
        Some(v) => spec_clean_exif_text(v),
        None => None,
    }
}

/// The location recorded from the GPS fields: present only when both are.
pub open spec fn spec_exif_location(latitude: Option<Seq<char>>, longitude: Option<Seq<char>>) -> Option<
    Seq<char>,
> {
    match (latitude, longitude) {
        (Some(la), Some(lo)) => Some(spec_gps_label(la, lo)),
        _ => None,
    }
}

/// Whether the summary holds what the EXIF texts give.
pub open spec fn summarizes(s: ExifSummary, texts: Seq<Option<Seq<char>>>) -> bool {
    &&& s.date_texts@.map_values(|d: Option<String>| opt_view(d)) == texts.subrange(0, 3)
    &&& opt_view(s.camera) == spec_camera_label(clean_opt(texts[3]), clean_opt(texts[4]))
    &&& opt_view(s.location) == spec_exif_location(texts[5], texts[6])
}

fn clean_field(value: &Option<String>) -> (out: Option<String>)
    ensures
        opt_view(out) == clean_opt(opt_view(*value)),
{
    match value {
        Some(v) => clean_exif_text(v.as_str()),
        None => None,
    }
}

/// Reads the EXIF block of a picture file's bytes: `None` when there is none
/// that can be read, otherwise the time texts, the camera name from the
/// cleaned make and model, and the location when both GPS fields are present.
pub fn exif_summary(bytes: &[u8]) -> (out: Option<ExifSummary>)
    ensures
        match spec_exif_texts(bytes@) {
            Some(texts) => out matches Some(s) && summarizes(s, texts),
            None => out is None,
        },
{
    let fields = match read_exif_fields(bytes) {
        Some(f) => f,
        None => return None,
    };
    let ghost texts = fields.texts();
    let camera = camera_label(clean_field(&fields.make), clean_field(&fields.model));
    let location = match (&fields.gps_latitude, &fields.gps_longitude) {
        (Some(la), Some(lo)) => Some(gps_label(la.as_str(), lo.as_str())),
        _ => None,
    };
    let date_texts = vec![fields.date_time_original, fields.date_time_digitized, fields.date_time];
    let s = ExifSummary { date_texts, camera, location };
    assert(s.date_texts@.map_values(|d: Option<String>| opt_view(d)) =~= texts.subrange(0, 3));
    Some(s)
}

/// The first of the times that could be read, or `fallback` when none could.
pub open spec fn spec_captured_at(times: Seq<Option<Seq<char>>>, fallback: Seq<char>) -> Seq<char>
    decreases times.len(),
{
    if times.len() == 0 {
        fallback
    } else {
        match times[0] {
            Some(t) => t,
            None => spec_captured_at(times.drop_first(), fallback),
        }
    }
}

/// The capture time is the first time that could be read, whatever follows
/// it, and the fallback only when none could.
pub proof fn law_capture_time_is_first_read(times: Seq<Option<Seq<char>>>, fallback: Seq<char>, i: int)
    requires
        0 <= i < times.len(),
    ensures
        (times[i] is Some && forall|j: int| 0 <= j < i ==> #[trigger] times[j] is None)
            ==> spec_captured_at(times, fallback) == times[i]->0,
        (forall|j: int| 0 <= j < times.len() ==> #[trigger] times[j] is None) ==> spec_captured_at(
            times,
            fallback,
        ) == fallback,
    decreases times.len(),
{
    if times.len() > 0 && (forall|j: int| 0 <= j < times.len() ==> #[trigger] times[j] is None) {
        lemma_no_time_read(times, fallback);
    }
    if i > 0 && times[0] is None {
        law_capture_time_is_first_read(times.drop_first(), fallback, i - 1);
        assert forall|j: int| 0 <= j < i - 1 implies (#[trigger] times.drop_first()[j]) is None
            == (times[j + 1] is None) by {}
    }
}

/// With no time read, the fallback is recorded.
proof fn lemma_no_time_read(times: Seq<Option<Seq<char>>>, fallback: Seq<char>)
    requires
        forall|j: int| 0 <= j < times.len() ==> #[trigger] times[j] is None,
    ensures
        spec_captured_at(times, fallback) == fallback,
    decreases times.len(),
{
    if times.len() > 0 {
        assert(times[0] is None);
        assert forall|j: int| 0 <= j < times.drop_first().len() implies #[trigger] times.drop_first()[j]
            is None by {
            assert(times.drop_first()[j] == times[j + 1]);
        }
        lemma_no_time_read(times.drop_first(), fallback);
    }
}

/// The capture time recorded for a picture: the first EXIF time that could
/// be read, in the order DateTimeOriginal, DateTimeDigitized, DateTime; otherwise the
/// fallback (the file's modification time).
pub fn captured_at(times: &[Option<String>], fallback: &str) -> (out: String)
    ensures
        out@ == spec_captured_at(times@.map_values(|t: Option<String>| opt_view(t)), fallback@),
{
    let ghost all = times@.map_values(|t: Option<String>| opt_view(t));
    let mut i: usize = 0;
    assert(all.subrange(0, all.len() as int) =~= all);
    while i < times.len()
        invariant
            i <= times.len(),
            all == times@.map_values(|t: Option<String>| opt_view(t)),
            spec_captured_at(all, fallback@) == spec_captured_at(all.subrange(i as int, all.len() as int), fallback@),
        decreases times.len() - i,
    {
        assert(all.subrange(i as int, all.len() as int).drop_first() =~= all.subrange(i as int + 1, all.len() as int));
        match &times[i] {
            Some(t) => {
                return t.clone();
            },
            None => {},
        }
        i = i + 1;
    }
    assert(all.subrange(i as int, all.len() as int) =~= Seq::<Option<Seq<char>>>::empty());
    string_from_chars(&chars_of(fallback))
}

/// The wall-clock time that `chrono::NaiveDateTime::parse_from_str(text, format)`
/// reads, as (year, month, day, hour, minute, second), or `None` when it
/// reports an error.
pub uninterp spec fn spec_parse_naive_datetime(text: Seq<char>, format: Seq<char>) -> Option<
    (i32, u32, u32, u32, u32, u32),
>;

/// Calls `NaiveDateTime::parse_from_str`, then reads the parts of the result.
#[verifier::external_body]
fn parse_naive_datetime(text: &str, format: &str) -> (out: Option<(i32, u32, u32, u32, u32, u32)>)
    ensures
        out == spec_parse_naive_datetime(text@, format@),
{
    let t = chrono::NaiveDateTime::parse_from_str(text, format).ok()?;
    Some((t.year(), t.month(), t.day(), t.hour(), t.minute(), t.second()))
}

/// The wall-clock time an EXIF time text gives: the text without surrounding
/// quotes and spaces, read as `%Y-%m-%d %H:%M:%S` or else as
/// `%Y:%m:%d %H:%M:%S`.
pub open spec fn spec_exif_wall_time(text: Seq<char>) -> Option<(i32, u32, u32, u32, u32, u32)> {
    let v = trim_by(text, CharClass::QuoteOrSpace);
    match spec_parse_naive_datetime(v, "%Y-%m-%d %H:%M:%S"@) {
        Some(t) => Some(t),
        None => spec_parse_naive_datetime(v, "%Y:%m:%d %H:%M:%S"@),
    }
}

/// Reads an EXIF time text as a wall-clock time (in no time zone yet).
pub fn exif_wall_time(text: &str) -> (out: Option<(i32, u32, u32, u32, u32, u32)>)
    ensures
        out == spec_exif_wall_time(text@),
{
    let v = chars_of(text);
    let trimmed = string_from_chars(&trim_chars(&v, CharClass::QuoteOrSpace));
    match parse_naive_datetime(trimmed.as_str(), "%Y-%m-%d %H:%M:%S") {
        Some(t) => Some(t),
        None => parse_naive_datetime(trimmed.as_str(), "%Y:%m:%d %H:%M:%S"),
    }
}

} // verus!
