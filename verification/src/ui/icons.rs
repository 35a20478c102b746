use crate::image::{parse_ppm_p3, ppm_image, Image, ImageData};
use crate::text::words;
use vstd::prelude::*;
use vstd::utf8::{decode_utf8, valid_utf8};

verus! {

/// The icons of the desktop, each parsed from its picture file when it is
/// first asked for and kept from then on.
pub struct Icons {
    pub notes: Option<Image>,
    pub files: Option<Image>,
    pub about: Option<Image>,
    pub settings: Option<Image>,
    pub task: Option<Image>,
    pub broom: Option<Image>,
}

/// The picture in a slot, as plain values.
pub open spec fn held(slot: Option<Image>) -> Option<ImageData> {
    match slot {
        Some(img) => Some(img@),
        None => None,
    }
}

/// The picture that a picture file describes, if it describes one.
pub open spec fn picture_of(bytes: Seq<u8>) -> Option<ImageData> {
    if valid_utf8(bytes) {
        ppm_image(words(decode_utf8(bytes)))
    } else {
        None
    }
}

/// What a slot holds after it was asked for with the given picture file:
/// what it held, or else the file's picture.
pub open spec fn filled(slot: Option<ImageData>, bytes: Seq<u8>) -> Option<ImageData> {
    match slot {
        Some(img) => Some(img),
        None => picture_of(bytes),
    }
}

impl Icons {
    /// No icon parsed yet.
    pub fn new() -> (icons: Self)
        ensures
            icons.notes is None,
            icons.files is None,
            icons.about is None,
            icons.settings is None,
            icons.task is None,
            icons.broom is None,
    {
        Icons { notes: None, files: None, about: None, settings: None, task: None, broom: None }
    }
}

/// Fills the slot from the picture file where it is empty, and returns a
/// copy of the picture that it then holds.
pub fn parse_or_set(slot: &mut Option<Image>, bytes: &[u8]) -> (r: Option<Image>)
    ensures
        held(*final(slot)) == filled(held(*old(slot)), bytes@),
        held(r) == held(*final(slot)),
{
    if slot.is_none() {
        *slot = parse_ppm_p3(bytes);
    }
    match slot {
        Some(img) => Some(img.duplicate()),
        None => None,
    }
}

/// The icon of the notes window.
pub fn icon_notes(icons: &mut Icons, bytes: &[u8]) -> (r: Option<Image>)
    ensures
        held(final(icons).notes) == filled(held(old(icons).notes), bytes@),
        held(r) == held(final(icons).notes),
        *final(icons) == (Icons { notes: final(icons).notes, ..*old(icons) }),
{
    parse_or_set(&mut icons.notes, bytes)
}

/// The icon of the files window.
pub fn icon_files(icons: &mut Icons, bytes: &[u8]) -> (r: Option<Image>)
    ensures
        held(final(icons).files) == filled(held(old(icons).files), bytes@),
        held(r) == held(final(icons).files),
        *final(icons) == (Icons { files: final(icons).files, ..*old(icons) }),
{
    parse_or_set(&mut icons.files, bytes)
}

/// The icon of the about window.
pub fn icon_about(icons: &mut Icons, bytes: &[u8]) -> (r: Option<Image>)
    ensures
        held(final(icons).about) == filled(held(old(icons).about), bytes@),
        held(r) == held(final(icons).about),
        *final(icons) == (Icons { about: final(icons).about, ..*old(icons) }),
{
    parse_or_set(&mut icons.about, bytes)
}

/// The icon of the settings window.
pub fn icon_settings(icons: &mut Icons, bytes: &[u8]) -> (r: Option<Image>)
    ensures
        held(final(icons).settings) == filled(held(old(icons).settings), bytes@),
        held(r) == held(final(icons).settings),
        *final(icons) == (Icons { settings: final(icons).settings, ..*old(icons) }),
{
    parse_or_set(&mut icons.settings, bytes)
}

/// The icon of the task manager.
pub fn icon_task(icons: &mut Icons, bytes: &[u8]) -> (r: Option<Image>)
    ensures
        held(final(icons).task) == filled(held(old(icons).task), bytes@),
        held(r) == held(final(icons).task),
        *final(icons) == (Icons { task: final(icons).task, ..*old(icons) }),
{
    parse_or_set(&mut icons.task, bytes)
}

/// The icon of the browser.
pub fn icon_broom(icons: &mut Icons, bytes: &[u8]) -> (r: Option<Image>)
    ensures
        held(final(icons).broom) == filled(held(old(icons).broom), bytes@),
        held(r) == held(final(icons).broom),
        *final(icons) == (Icons { broom: final(icons).broom, ..*old(icons) }),
{
    parse_or_set(&mut icons.broom, bytes)
}

} // verus!
