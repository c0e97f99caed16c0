//! What the front ends print for a hit: the colorized display line and the
//! terminal hyperlink that wraps it, plus the per-variant result caps. The
//! front ends themselves only read lines or poll widgets and print what
//! these functions build.

use vstd::prelude::*;
use vstd::string::{StrSliceExecFns, StringExecFns};

use crate::doc::artist_of;
use crate::ext::file_name;
use crate::record::{AudioFile, RecView};
use crate::text::{dec_rep, u64_to_string};

verus! {

/// A piece of text wrapped in a terminal hyperlink escape.
pub struct Hyperlink {
    pub hyperlink: String,
    pub text: String,
}

/// The OSC 8 escape sequence: the link target, then the visible text.
pub open spec fn hyperlink_spec(link: Seq<char>, text: Seq<char>) -> Seq<char> {
    "\x1b]8;;"@ + link + "\x1b\\"@ + text + "\x1b]8;;\x1b\\"@
}

/// An optional display segment: its prefix and value, or nothing.
pub open spec fn opt_seg(prefix: Seq<char>, v: Option<Seq<char>>) -> Seq<char> {
    match v {
        Some(s) => prefix + s,
        None => Seq::empty(),
    }
}

/// The one-line rendering of a hit: file name, then title, artist (with the
/// album-artist fallback), album, track number and date, each colorized and
/// omitted when absent.
pub open spec fn display_spec(r: RecView) -> Seq<char> {
    "\x1b[37m"@ + crate::ext::file_name_of(r.file_path) + opt_seg(": \x1b[92m"@, r.title)
        + opt_seg(" - \x1b[92m"@, artist_of(r)) + opt_seg(" \x1b[37m- \x1b[94m"@, r.album) + (
    match r.track {
        Some(n) => "\x1b[94m #"@ + dec_rep(n as nat),
        None => Seq::empty(),
    }) + opt_seg("\x1b[32m ("@, r.date) + (match r.date {
        Some(_) => ")"@,
        None => Seq::empty(),
    }) + "\x1b[0m"@
}

impl Hyperlink {
    pub fn new(hyperlink: String, text: String) -> (r: Hyperlink)
        ensures
            r.hyperlink@ == hyperlink@,
            r.text@ == text@,
    {
        Hyperlink { hyperlink, text }
    }

    /// The link printed for one hit: `file://<hostname><path>` around the
    /// record's display line. Like the display line, it demands a path with
    /// a file-name component.
    pub fn for_record(hostname: &str, rec: &AudioFile) -> (r: Hyperlink)
        requires
            crate::ext::file_name_of(rec@.file_path).len() > 0,
        ensures
            r.hyperlink@ == "file://"@ + hostname@ + rec@.file_path,
            r.text@ == display_spec(rec@),
    {
        let mut link = String::from_str("file://");
        link.append(hostname);
        link.append(rec.file_path.as_str());
        Hyperlink::new(link, rec.display_line())
    }

    /// Renders the hyperlink as one escape-wrapped string.
    pub fn render(&self) -> (s: String)
        ensures
            s@ == hyperlink_spec(self.hyperlink@, self.text@),
    {
        let mut s = String::from_str("\x1b]8;;");
        s.append(self.hyperlink.as_str());
        s.append("\x1b\\");
        s.append(self.text.as_str());
        s.append("\x1b]8;;\x1b\\");
        proof {
            assert(s@ =~= hyperlink_spec(self.hyperlink@, self.text@));
        }
        s
    }
}

impl AudioFile {
    /// The colorized single-line rendering of this record. A record always
    /// carries a resolvable path — one without a final file-name component
    /// is never constructed — so rendering demands one; a caller holding an
    /// untrusted record must check first.
    pub fn display_line(&self) -> (s: String)
        requires
            crate::ext::file_name_of(self@.file_path).len() > 0,
        ensures
            s@ == display_spec(self@),
    {
        let ghost d0 = "\x1b[37m"@ + crate::ext::file_name_of(self@.file_path);
        let mut s = String::from_str("\x1b[37m");
        let fname = file_name(self.file_path.as_str());
        s.append(fname.as_str());
        let ghost d1 = d0 + opt_seg(": \x1b[92m"@, self@.title);
        match &self.title {
            Some(t) => {
                s.append(": \x1b[92m");
                s.append(t.as_str());
            },
            None => {},
        }
        proof {
            assert(s@ =~= d1);
        }
        let ghost d2 = d1 + opt_seg(" - \x1b[92m"@, artist_of(self@));
        match &self.artist {
            Some(a) => {
                s.append(" - \x1b[92m");
                s.append(a.as_str());
            },
            None => match &self.album_artist {
                Some(a) => {
                    s.append(" - \x1b[92m");
                    s.append(a.as_str());
                },
                None => {},
            },
        }
        proof {
            assert(s@ =~= d2);
        }
        let ghost d3 = d2 + opt_seg(" \x1b[37m- \x1b[94m"@, self@.album);
        match &self.album {
            Some(a) => {
                s.append(" \x1b[37m- \x1b[94m");
                s.append(a.as_str());
            },
            None => {},
        }
        proof {
            assert(s@ =~= d3);
        }
        let ghost d4 = d3 + (match self@.track {
            Some(n) => "\x1b[94m #"@ + dec_rep(n as nat),
            None => Seq::<char>::empty(),
        });
        match self.track {
            Some(n) => {
                s.append("\x1b[94m #");
                let digits = u64_to_string(n);
                s.append(digits.as_str());
            },
            None => {},
        }
        proof {
            assert(s@ =~= d4);
        }
        let ghost d5 = d4 + opt_seg("\x1b[32m ("@, self@.date) + (match self@.date {
            Some(_) => ")"@,
            None => Seq::<char>::empty(),
        });
        match &self.date {
            Some(d) => {
                s.append("\x1b[32m (");
                s.append(d.as_str());
                s.append(")");
            },
            None => {},
        }
        proof {
            assert(s@ =~= d5);
        }
        s.append("\x1b[0m");
        proof {
            assert(s@ =~= display_spec(self@));
        }
        s
    }
}

/// The live, full-screen terminal front end: it polls an input box and
/// re-renders a result list on every change.
pub struct CursiveUI;

impl CursiveUI {
    /// This variant shows at most twenty hits per query.
    pub fn result_limit(&self) -> (k: usize)
        ensures
            k == 20,
    {
        20
    }
}

/// The line-based REPL front end: it reads one query per line and prints
/// each hit as a hyperlinked line.
pub struct RustylineUI;

impl RustylineUI {
    /// This variant shows at most fifteen hits per query.
    pub fn result_limit(&self) -> (k: usize)
        ensures
            k == 15,
    {
        15
    }
}

} // verus!
