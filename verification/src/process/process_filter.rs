use vstd::prelude::*;

verus! {

#[verifier::external_type_specification]
#[verifier::external_body]
pub struct ExRegex(regex::Regex);

/// Whether the regular expression written `pattern` matches anywhere in
/// `text`.  The result depends on the pattern and the text alone.
pub uninterp spec fn regex_match(pattern: Seq<char>, text: Seq<char>) -> bool;

/// A compiled search pattern together with the text it was compiled
/// from.  The two fields stay paired: the only constructor compiles the
/// stored text.
pub struct Pattern {
    source: String,
    re: regex::Regex,
}

impl Pattern {
    /// The pattern text this value was compiled from.
    pub closed spec fn src(&self) -> Seq<char> {
        self.source@
    }

    /// Relies on `regex::Regex::new`: compile a pattern, keeping its
    /// text; an invalid pattern yields nothing.
    #[verifier::external_body]
    pub fn compile(pattern: &str) -> (r: Option<Pattern>)
        ensures
            r matches Some(p) ==> p.src() == pattern@,
    {
        match regex::Regex::new(pattern) {
            Ok(re) => Some(Pattern { source: pattern.to_owned(), re }),
            Err(_) => None,
        }
    }

    /// Relies on `regex::Regex::is_match`: whether this pattern matches
    /// anywhere in `text`; the result depends on the pattern text and
    /// `text` alone.
    #[verifier::external_body]
    pub fn is_match(&self, text: &str) -> (r: bool)
        ensures
            r == regex_match(self.src(), text@),
    {
        self.re.is_match(text)
    }
}

/// A query over processes: every predicate that is present must hold.
pub struct ProcessFilter {
    /// Keep only this process and its descendants.
    pub pid_filter: Option<u32>,
    /// Keep only processes with this user id among their four.
    pub uid_filter: Option<u32>,
    /// Keep only processes with this group id among their four.
    pub gid_filter: Option<u32>,
    /// Keep only processes whose command line or command name matches.
    pub program_filter: Option<Pattern>,
    /// Keep only processes whose controlling terminal matches.
    pub tty_filter: Option<Pattern>,
}

/// The mathematical content of a filter: each pattern stands as its
/// source text.
pub struct ProcessFilterV {
    pub pid_filter: Option<u32>,
    pub uid_filter: Option<u32>,
    pub gid_filter: Option<u32>,
    pub program_filter: Option<Seq<char>>,
    pub tty_filter: Option<Seq<char>>,
}

impl View for ProcessFilter {
    type V = ProcessFilterV;

    open spec fn view(&self) -> ProcessFilterV {
        ProcessFilterV {
            pid_filter: self.pid_filter,
            uid_filter: self.uid_filter,
            gid_filter: self.gid_filter,
            program_filter: match self.program_filter {
                Some(ref p) => Some(p.src()),
                None => None,
            },
            tty_filter: match self.tty_filter {
                Some(ref p) => Some(p.src()),
                None => None,
            },
        }
    }
}

impl Default for ProcessFilter {
    /// The filter that keeps every process.
    fn default() -> (r: Self)
        ensures
            r.pid_filter is None,
            r.uid_filter is None,
            r.gid_filter is None,
            r.program_filter is None,
            r.tty_filter is None,
    {
        ProcessFilter {
            pid_filter: None,
            uid_filter: None,
            gid_filter: None,
            program_filter: None,
            tty_filter: None,
        }
    }
}

} // verus!
