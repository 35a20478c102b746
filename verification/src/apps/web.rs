use crate::fs::file_of;
use crate::fs::memfs::MemFs;
use crate::text::text_of;
use vstd::prelude::*;
use vstd::string::StringExecFns;
use vstd::utf8::{decode_utf8, valid_utf8};

verus! {

/// The text of a viewer window: the heading, then the file's text; a note
/// in its place where the file is no text or is missing.
pub open spec fn viewer_text(fs: Option<MemFs>, heading: Seq<char>, path: Seq<char>, missing: Seq<char>) -> Seq<char> {
    match file_of(fs, path) {
        Some(bytes) => heading + (if valid_utf8(bytes) {
            decode_utf8(bytes)
        } else {
            "<utf8 error>"@
        }),
        None => heading + missing,
    }
}

/// The text of a viewer window for the file at `path`.
fn viewer(fs: &Option<MemFs>, heading: &str, path: &str, missing: &str) -> (text: String)
    requires
        fs is Some ==> fs->0.wf(),
    ensures
        text@ == viewer_text(*fs, heading@, path@, missing@),
{
    let mut s = String::from_str(heading);
    match crate::fs::read(fs, path) {
        Ok(bytes) => {
            match text_of(bytes.as_slice()) {
                Some(t) => {
                    proof {
                        vstd::utf8::encode_utf8_decode_utf8(t@);
                    }
                    s.append(t);
                },
                None => {
                    s.append("<utf8 error>");
                },
            }
        },
        Err(_) => {
            s.append(missing);
        },
    }
    s
}

/// The text of the viewer for the page of the web sample.
pub fn view_html(fs: &Option<MemFs>) -> (text: String)
    requires
        fs is Some ==> fs->0.wf(),
    ensures
        text@ == viewer_text(*fs, "HTML Viewer\n\n"@, "/www/index.html"@, "/www/index.html not found"@),
{
    viewer(fs, "HTML Viewer\n\n", "/www/index.html", "/www/index.html not found")
}

/// The text of the viewer for the script of the web sample.
pub fn view_js(fs: &Option<MemFs>) -> (text: String)
    requires
        fs is Some ==> fs->0.wf(),
    ensures
        text@ == viewer_text(*fs, "JS Viewer\n\n"@, "/www/app.js"@, "/www/app.js not found"@),
{
    viewer(fs, "JS Viewer\n\n", "/www/app.js", "/www/app.js not found")
}

/// The text of the viewer for the style sheet of the web sample.
pub fn view_css(fs: &Option<MemFs>) -> (text: String)
    requires
        fs is Some ==> fs->0.wf(),
    ensures
        text@ == viewer_text(*fs, "CSS Viewer\n\n"@, "/www/styles.css"@, "/www/styles.css not found"@),
{
    viewer(fs, "CSS Viewer\n\n", "/www/styles.css", "/www/styles.css not found")
}

} // verus!
