//! Draft descriptors: launchable applications described by `key=value` text.
use vstd::prelude::*;
use vstd::string::{StrSliceExecFns, StringExecFns};

use crate::text::str_eq;

verus! {

/// Directory that holds the descriptors.
pub const DRAFT_PATH: &'static str = "/opt/etc/draft";

/// Subdirectory of `DRAFT_PATH` that holds the icons.
pub const ICONS_DIR: &'static str = "icons";

/// A launchable application.
#[derive(Debug)]
pub struct Draft {
    pub name: String,
    pub desc: String,
    pub call: String,
    pub which: Option<String>,
    pub term: Option<String>,
    pub icon: Option<String>,
}

/// Why a descriptor was rejected.
#[derive(Clone, Copy, Debug, PartialEq, Eq, Structural)]
pub enum DraftError {
    /// A non-comment line holds no `=`.
    MalformedLine,
    NoName,
    NoDescription,
    /// The launch target does not exist on disk.
    MissingLaunchTarget,
}

impl DraftError {
    pub fn message(&self) -> (r: &'static str) {
        match self {
            DraftError::MalformedLine => "Draft has a line without a key",
            DraftError::NoName => "Draft has no name",
            DraftError::NoDescription => "Draft has no description",
            DraftError::MissingLaunchTarget => "Draft launch target does not exist",
        }
    }
}

/// The fields of a descriptor as plain character sequences.
pub struct DraftFields {
    pub name: Seq<char>,
    pub desc: Seq<char>,
    pub call: Seq<char>,
    pub which: Option<Seq<char>>,
    pub term: Option<Seq<char>>,
    pub icon: Option<Seq<char>>,
}

impl Draft {
    pub open spec fn fields(&self) -> DraftFields {
        DraftFields {
            name: self.name@,
            desc: self.desc@,
            call: self.call@,
            which: match self.which {
                Some(w) => Some(w@),
                None => None,
            },
            term: match self.term {
                Some(t) => Some(t@),
                None => None,
            },
            icon: match self.icon {
                Some(i) => Some(i@),
                None => None,
            },
        }
    }
}

/// Index of the first `c` at or after `pos`, or the length if none.
pub open spec fn find_from(s: Seq<char>, c: char, pos: int) -> int
    decreases s.len() - pos,
{
    if pos >= s.len() {
        s.len() as int
    } else if s[pos] == c {
        pos
    } else {
        find_from(s, c, pos + 1)
    }
}

/// A line without the carriage return that may end it.
pub open spec fn strip_cr(line: Seq<char>) -> Seq<char> {
    if line.len() > 0 && line.last() == '\r' {
        line.drop_last()
    } else {
        line
    }
}

/// Where the icon named `value` is found.
pub open spec fn icon_path(value: Seq<char>) -> Seq<char> {
    "/opt/etc/draft/icons/"@ + value + ".png"@
}

/// The effect of one line on the fields read so far.
pub open spec fn apply_line(line: Seq<char>, acc: DraftFields) -> Result<DraftFields, DraftError> {
    if line.len() == 0 || line[0] == '#' {
        Ok(acc)
    } else {
        let k = find_from(line, '=', 0);
        if k >= line.len() {
            Err(DraftError::MalformedLine)
        } else {
            let key = line.subrange(0, k);
            let value = line.subrange(k + 1, line.len() as int);
            if key == "name"@ {
                Ok(DraftFields { name: value, ..acc })
            } else if key == "desc"@ {
                Ok(DraftFields { desc: value, ..acc })
            } else if key == "call"@ {
                Ok(DraftFields { call: value, ..acc })
            } else if key == "which"@ {
                Ok(DraftFields { which: Some(value), ..acc })
            } else if key == "term"@ {
                Ok(DraftFields { term: Some(value), ..acc })
            } else if key == "imgFile"@ {
                Ok(DraftFields { icon: Some(icon_path(value)), ..acc })
            } else {
                Ok(acc)
            }
        }
    }
}

/// The fields read from the lines of `s` starting at `pos`, line by line.
pub open spec fn parse_from(s: Seq<char>, pos: int, acc: DraftFields) -> Result<
    DraftFields,
    DraftError,
>
    decreases s.len() - pos,
{
    if pos < 0 || pos >= s.len() {
        Ok(acc)
    } else {
        let e = find_from(s, '\n', pos);
        match apply_line(strip_cr(s.subrange(pos, e)), acc) {
            Ok(next) => if pos <= e < s.len() {
                parse_from(s, e + 1, next)
            } else {
                Ok(next)
            },
            Err(err) => Err(err),
        }
    }
}

/// Fields before any line is read.
pub open spec fn empty_fields() -> DraftFields {
    DraftFields {
        name: Seq::empty(),
        desc: Seq::empty(),
        call: Seq::empty(),
        which: None,
        term: None,
        icon: None,
    }
}

/// What a descriptor text describes: its fields, or the first reason to
/// reject it (a malformed line, then a missing name, then a missing
/// description).
pub open spec fn draft_of(s: Seq<char>) -> Result<DraftFields, DraftError> {
    match parse_from(s, 0, empty_fields()) {
        Ok(f) => if f.name.len() == 0 {
            Err(DraftError::NoName)
        } else if f.desc.len() == 0 {
            Err(DraftError::NoDescription)
        } else {
            Ok(f)
        },
        Err(e) => Err(e),
    }
}

fn find_char(s: &str, c: char, pos: usize) -> (r: usize)
    requires
        pos <= s@.len(),
    ensures
        r == find_from(s@, c, pos as int),
        pos <= r <= s@.len(),
{
    let n = s.unicode_len();
    let mut i = pos;
    while i < n && s.get_char(i) != c
        invariant
            n == s@.len(),
            pos <= i <= n,
            find_from(s@, c, pos as int) == find_from(s@, c, i as int),
        decreases n - i,
    {
        i = i + 1;
    }
    i
}

impl Draft {
    fn empty() -> (r: Draft)
        ensures
            r.fields() == empty_fields(),
    {
        Draft {
            name: String::new(),
            desc: String::new(),
            call: String::new(),
            which: None,
            term: None,
            icon: None,
        }
    }

    fn apply(&mut self, line: &str) -> (r: Result<(), DraftError>)
        ensures
            match apply_line(line@, old(self).fields()) {
                Ok(f) => r is Ok && final(self).fields() == f,
                Err(e) => r == Err::<(), DraftError>(e),
            },
    {
        let n = line.unicode_len();
        if n == 0 || line.get_char(0) == '#' {
            return Ok(());
        }
        let k = find_char(line, '=', 0);
        if k >= n {
            return Err(DraftError::MalformedLine);
        }
        let key = line.substring_char(0, k);
        let value = String::from_str(line.substring_char(k + 1, n));
        proof {
            reveal_strlit("name");
            reveal_strlit("desc");
            reveal_strlit("call");
            reveal_strlit("which");
            reveal_strlit("term");
            reveal_strlit("imgFile");
        }
        if str_eq(key, "name") {
            self.name = value;
        } else if str_eq(key, "desc") {
            self.desc = value;
        } else if str_eq(key, "call") {
            self.call = value;
        } else if str_eq(key, "which") {
            self.which = Some(value);
        } else if str_eq(key, "term") {
            self.term = Some(value);
        } else if str_eq(key, "imgFile") {
            let path = String::from_str("/opt/etc/draft/icons/").concat(value.as_str()).concat(
                ".png",
            );
            self.icon = Some(path);
        }
        Ok(())
    }

    /// Reads a descriptor. The launch target's existence is not checked
    /// here: see `check_launch_target`.
    pub fn new(input: &str) -> (r: Result<Draft, DraftError>)
        ensures
            match draft_of(input@) {
                Ok(f) => r is Ok && r->Ok_0.fields() == f,
                Err(e) => r == Err::<Draft, DraftError>(e),
            },
    {
        let mut draft = Draft::empty();
        let n = input.unicode_len();
        let mut pos: usize = 0;
        while pos < n
            invariant
                n == input@.len(),
                pos <= n,
                parse_from(input@, 0, empty_fields()) == parse_from(input@, pos as int, draft.fields()),
            decreases n - pos,
        {
            let e = find_char(input, '\n', pos);
            let raw = input.substring_char(pos, e);
            let len = raw.unicode_len();
            let line = if len > 0 && raw.get_char(len - 1) == '\r' {
                raw.substring_char(0, len - 1)
            } else {
                raw
            };
            assert(line@ == strip_cr(input@.subrange(pos as int, e as int)));
            match draft.apply(line) {
                Ok(()) => {},
                Err(err) => {
                    return Err(err);
                },
            }
            if e >= n {
                pos = n;
            } else {
                pos = e + 1;
            }
        }
        if draft.name.as_str().unicode_len() == 0 {
            return Err(DraftError::NoName);
        }
        if draft.desc.as_str().unicode_len() == 0 {
            return Err(DraftError::NoDescription);
        }
        Ok(draft)
    }

    /// Rejects the draft when its launch target is missing on disk.
    pub fn check_launch_target(self, exists: bool) -> (r: Result<Draft, DraftError>)
        ensures
            exists ==> r is Ok && r->Ok_0 == self,
            !exists ==> r == Err::<Draft, DraftError>(DraftError::MissingLaunchTarget),
    {
        if exists {
            Ok(self)
        } else {
            Err(DraftError::MissingLaunchTarget)
        }
    }
}

/// The drafts found on disk.
#[derive(Debug)]
pub struct Drafts(pub Vec<Draft>);

impl Drafts {
    /// The drafts, in the order they were found.
    pub fn take(self) -> (r: Vec<Draft>)
        ensures
            r == self.0,
    {
        self.0
    }
}

} // verus!
