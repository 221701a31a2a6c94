//! The shell-facing provider state and the pure decisions around it: which
//! extension a path carries, what to ask the association registry, how to
//! judge its answer, and the fields of a reading-presence update.  The
//! shell integration performs the platform calls and hands their plain
//! results back to these functions.

use vstd::prelude::*;

use crate::scan;
use crate::scan::ascii_bytes;
use crate::scan::lower_seq;

verus! {

/// Where the file name starts: one past the last path separator.
pub open spec fn name_start(path: Seq<u8>) -> int {
    let sl = scan::last_match(path, ascii_bytes("/"@));
    let bs = scan::last_match(path, ascii_bytes("\\"@));
    match (sl, bs) {
        (Some(a), Some(b)) => if a > b {
            a + 1
        } else {
            b + 1
        },
        (Some(a), None) => a + 1,
        (None, Some(b)) => b + 1,
        (None, None) => 0,
    }
}

/// The file-name component of a path.
pub open spec fn file_name_of(path: Seq<u8>) -> Seq<u8> {
    path.subrange(name_start(path), path.len() as int)
}

/// The path's file name has an extension: a dot that is neither its
/// first character nor missing.
pub open spec fn has_extension(path: Seq<u8>) -> bool {
    match scan::last_match(file_name_of(path), ascii_bytes("."@)) {
        Some(p) => p > 0,
        None => false,
    }
}

/// The lower-cased extension of the path's file name, empty when there
/// is none.
pub open spec fn extension_of(path: Seq<u8>) -> Seq<u8> {
    let name = file_name_of(path);
    match scan::last_match(name, ascii_bytes("."@)) {
        Some(p) => if p > 0 {
            lower_seq(name.subrange(p + 1, name.len() as int))
        } else {
            Seq::empty()
        },
        None => Seq::empty(),
    }
}

/// The lower-cased extension of a path's file name, empty when there is
/// none.
pub fn extension_of_path(path: &[u8]) -> (r: Vec<u8>)
    ensures
        r@ == extension_of(path@),
{
    proof {
        reveal_strlit("/");
        reveal_strlit("\\");
        reveal_strlit(".");
    }
    let n = path.len();
    let sl = scan::rfind_in(path, scan::lit_bytes("/"));
    let bs = scan::rfind_in(path, scan::lit_bytes("\\"));
    let cut: usize = match (sl, bs) {
        (Some(a), Some(b)) => if a > b {
            a + 1
        } else {
            b + 1
        },
        (Some(a), None) => a + 1,
        (None, Some(b)) => b + 1,
        (None, None) => 0,
    };
    let name = vstd::slice::slice_subrange(path, cut, n);
    match scan::rfind_in(name, scan::lit_bytes(".")) {
        Some(p) => {
            if p > 0 {
                scan::ascii_lower(vstd::slice::slice_subrange(name, p + 1, name.len()))
            } else {
                Vec::new()
            }
        },
        None => Vec::new(),
    }
}

/// The association query for a path: a dot followed by the lower-cased
/// extension, or nothing when the file name has no extension (then no
/// thumbnail is provided at all).
pub fn default_query_extension(path: &[u8]) -> (r: Option<Vec<u8>>)
    ensures
        match r {
            Some(q) => has_extension(path@) && q@ == ascii_bytes("."@) + extension_of(path@),
            None => !has_extension(path@),
        },
{
    proof {
        reveal_strlit("/");
        reveal_strlit("\\");
        reveal_strlit(".");
    }
    let n = path.len();
    let sl = scan::rfind_in(path, scan::lit_bytes("/"));
    let bs = scan::rfind_in(path, scan::lit_bytes("\\"));
    let cut: usize = match (sl, bs) {
        (Some(a), Some(b)) => if a > b {
            a + 1
        } else {
            b + 1
        },
        (Some(a), None) => a + 1,
        (None, Some(b)) => b + 1,
        (None, None) => 0,
    };
    let name = vstd::slice::slice_subrange(path, cut, n);
    match scan::rfind_in(name, scan::lit_bytes(".")) {
        Some(p) => {
            if p > 0 {
                let mut q: Vec<u8> = Vec::new();
                q.push(46);
                let ext = scan::ascii_lower(vstd::slice::slice_subrange(name, p + 1, name.len()));
                crate::opf::append_bytes(&mut q, ext.as_slice());
                assert(q@ =~= ascii_bytes("."@) + extension_of(path@));
                Some(q)
            } else {
                None
            }
        },
        None => None,
    }
}

/// Whether the executable a query returned is this application: its
/// lower-cased path mentions the application name.
pub fn executable_matches_app(exe_path: &[u8]) -> (r: bool)
    ensures
        r == scan::contains_seq(lower_seq(exe_path@), ascii_bytes("readest"@)),
{
    proof {
        reveal_strlit("readest");
    }
    let low = scan::ascii_lower(exe_path);
    scan::contains(low.as_slice(), scan::lit_bytes("readest"))
}

/// The default-handler decision: a thumbnail is provided only when the
/// path carries an extension and the executable its association query
/// returned (queried by the shell integration, handed in here) is this
/// application; a path without an extension is never queried at all.
pub fn is_readest_default_for_file(path: &[u8], associated_exe: Option<&Vec<u8>>) -> (r: bool)
    ensures
        r == (has_extension(path@) && match associated_exe {
            Some(e) => scan::contains_seq(lower_seq(e@), ascii_bytes("readest"@)),
            None => false,
        }),
{
    if default_query_extension(path).is_some() {
        match associated_exe {
            Some(e) => executable_matches_app(e.as_slice()),
            None => false,
        }
    } else {
        false
    }
}

/// Per-file thumbnail provider state: initialised with a path once the
/// shell has decided the file is ours to thumbnail.
pub struct ThumbnailProvider {
    /// The selected file, once initialised.
    pub file_path: Option<Vec<u8>>,
    /// Its lower-cased extension, once initialised.
    pub file_ext: Option<Vec<u8>>,
    /// Whether a thumbnail should be produced at all.
    pub should_provide: bool,
}

impl ThumbnailProvider {
    /// A fresh provider: no file selected, nothing to provide.
    pub fn new() -> (r: Self)
        ensures
            r.file_path is None,
            r.file_ext is None,
            !r.should_provide,
    {
        ThumbnailProvider { file_path: None, file_ext: None, should_provide: false }
    }

    /// Take the selected item's path and the shell's answer on whether
    /// this application is the default handler: keep the path and its
    /// lower-cased extension only when it is.
    pub fn initialize(&mut self, path: Vec<u8>, is_default: bool)
        ensures
            final(self).should_provide == is_default,
            is_default ==> (final(self).file_path matches Some(p) && p@ == path@)
                && (final(self).file_ext matches Some(e) && e@ == extension_of(path@)),
            !is_default ==> final(self).file_path == old(self).file_path && final(self).file_ext
                == old(self).file_ext,
    {
        self.should_provide = is_default;
        if is_default {
            let ext = extension_of_path(path.as_slice());
            self.file_path = Some(path);
            self.file_ext = Some(ext);
        }
    }
}

/// The class factory: stateless, it only counts module references in the
/// shell integration around it.
pub struct ThumbnailProviderFactory;

impl ThumbnailProviderFactory {
    /// A fresh factory.
    pub fn new() -> (r: Self) {
        ThumbnailProviderFactory
    }
}

/// A string cut to at most `max_len` bytes, an ellipsis marking the cut.
pub open spec fn truncated(s: Seq<u8>, max_len: int) -> Seq<u8> {
    if s.len() <= max_len {
        s
    } else {
        s.subrange(0, max_len - 3) + ascii_bytes("..."@)
    }
}

/// Cut a string to at most `max_len` bytes, an ellipsis marking the cut.
pub fn truncate_string(s: &[u8], max_len: usize) -> (r: Vec<u8>)
    requires
        max_len >= 3,
    ensures
        r@ == truncated(s@, max_len as int),
{
    proof {
        reveal_strlit("...");
    }
    if s.len() <= max_len {
        return vstd::slice::slice_to_vec(s);
    }
    let mut out = vstd::slice::slice_to_vec(vstd::slice::slice_subrange(s, 0, max_len - 3));
    crate::opf::append_bytes(&mut out, scan::lit_bytes("..."));
    out
}

/// What a reading-presence update carries.
pub struct BookPresenceData {
    /// Identifies the book the session belongs to.
    pub book_hash: Vec<u8>,
    /// The book's title.
    pub title: Vec<u8>,
    /// The author, if known.
    pub author: Option<Vec<u8>>,
    /// A cover image address, if one is published.
    pub cover_url: Option<Vec<u8>>,
    /// Session start, in milliseconds since the epoch.
    pub session_start: i64,
}

/// The fields a presence update shows.
pub struct PresenceFields {
    /// The first line: the title, cut to the service's length limit.
    pub details: Vec<u8>,
    /// The second line: the author, when known, cut to the same limit.
    pub state_line: Option<Vec<u8>>,
    /// The artwork key: the cover address when it is served over https,
    /// the stock book icon otherwise.
    pub large_image: Vec<u8>,
    /// Session start, in seconds.
    pub start_secs: i64,
}

/// Assemble the fields of a presence update: title and author cut to 128
/// bytes, the author prefixed with "by ", the cover address accepted
/// only over https, and the start time scaled to seconds.
pub fn presence_fields(d: &BookPresenceData) -> (r: PresenceFields)
    requires
        d.session_start >= 0,
    ensures
        r.details@ == truncated(d.title@, 128),
        match d.author {
            Some(a) => r.state_line matches Some(s) && s@ == ascii_bytes("by "@) + truncated(
                a@,
                128,
            ),
            None => r.state_line is None,
        },
        r.large_image@ == (match d.cover_url {
            Some(u) => if scan::starts_with_seq(u@, ascii_bytes("https://"@)) {
                u@
            } else {
                ascii_bytes("book_icon"@)
            },
            None => ascii_bytes("book_icon"@),
        }),
        r.start_secs == d.session_start / 1000,
{
    proof {
        reveal_strlit("by ");
        reveal_strlit("https://");
        reveal_strlit("book_icon");
    }
    let details = truncate_string(d.title.as_slice(), 128);
    let state_line: Option<Vec<u8>> = match &d.author {
        Some(a) => {
            let mut line = vstd::slice::slice_to_vec(scan::lit_bytes("by "));
            let cut = truncate_string(a.as_slice(), 128);
            crate::opf::append_bytes(&mut line, cut.as_slice());
            Some(line)
        },
        None => None,
    };
    let large_image: Vec<u8> = match &d.cover_url {
        Some(u) => {
            if scan::starts_with(u.as_slice(), scan::lit_bytes("https://")) {
                vstd::slice::slice_to_vec(u.as_slice())
            } else {
                vstd::slice::slice_to_vec(scan::lit_bytes("book_icon"))
            }
        },
        None => vstd::slice::slice_to_vec(scan::lit_bytes("book_icon")),
    };
    PresenceFields { details, state_line, large_image, start_secs: d.session_start / 1000 }
}

} // verus!
